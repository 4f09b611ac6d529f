//! The registry of downloadable images, and the decisions a download makes: which
//! file name and place it gets, and what kind of file it is.
use crate::paths::{path_join, path_join_exec};
use crate::seqs::{first_index, insert_entry, key_is, lookup, lemma_first_index, lemma_first_index_at, lemma_first_index_none};
use crate::text::{
    append_str, chars_eq, chars_of, contains_exec, contains_seq, copy_opt_string, copy_string,
    copy_strings, find_exec, find_seq, slice_chars, string_of, trim_char, trim_char_exec, views,
};
use crate::packer_template::opt_view;
use vstd::prelude::*;

verus! {

/// What a downloaded file is.
#[derive(Debug, Clone, Copy, PartialEq, Eq, Structural)]
pub enum SourceType {
    Iso,
    VmImage,
    ContainerImage,
    Archive,
}

/// How far an image has been processed.
#[derive(Debug, Clone, Copy, PartialEq, Eq, Structural)]
pub enum ProcessingStatus {
    Raw,
    PackerProcessed,
    AnsibleProvisioned,
}

/// The operating system of an image.
#[derive(Debug, Clone, Copy, PartialEq, Eq, Structural)]
pub enum Platform {
    Windows,
    Linux,
    MacOS,
}

/// The processor architecture of an image.
#[derive(Debug, Clone, Copy, PartialEq, Eq, Structural)]
pub enum Architecture {
    X86,
    X86_64,
}

/// How an image was built. Times are Unix timestamps in nanoseconds; the build
/// parameters are JSON text.
#[derive(Debug)]
pub struct BuildInfo {
    pub build_date: i128,
    pub build_id: String,
    pub builder_version: String,
    pub provisioner_version: Option<String>,
    pub build_parameters: String,
}

/// The history of a source. Times are Unix timestamps in nanoseconds.
#[derive(Debug)]
pub struct SourceMetadata {
    pub added_date: i128,
    pub last_verified: Option<i128>,
    pub last_downloaded: Option<i128>,
    pub downloads_count: u64,
    pub verified: bool,
    pub processing_status: ProcessingStatus,
    pub parent_source: Option<String>,
    pub build_info: Option<BuildInfo>,
}

/// What a machine needs to run an image; further requirements are JSON text.
#[derive(Debug)]
pub struct SystemRequirements {
    pub cpu_cores: u32,
    pub memory_mb: u64,
    pub disk_gb: u64,
    pub additional_requirements: Option<String>,
}

/// A downloadable image.
#[derive(Debug)]
pub struct DownloadSource {
    pub name: String,
    pub version: String,
    pub description: String,
    pub url: String,
    pub source_type: SourceType,
    pub metadata: SourceMetadata,
    pub checksum: Option<String>,
    pub checksum_type: Option<String>,
    pub size: Option<u64>,
    pub compression: Option<String>,
    pub platform: Platform,
    pub architecture: Architecture,
    pub minimum_requirements: Option<SystemRequirements>,
    pub tags: Vec<String>,
    pub mirrors: Vec<String>,
    pub license: Option<String>,
    pub documentation_url: Option<String>,
    pub release_notes: Option<String>,
}

pub struct BuildInfoView {
    pub build_date: i128,
    pub build_id: Seq<char>,
    pub builder_version: Seq<char>,
    pub provisioner_version: Option<Seq<char>>,
    pub build_parameters: Seq<char>,
}

impl View for BuildInfo {
    type V = BuildInfoView;

    open spec fn view(&self) -> BuildInfoView {
        BuildInfoView {
            build_date: self.build_date,
            build_id: self.build_id@,
            builder_version: self.builder_version@,
            provisioner_version: opt_view(self.provisioner_version),
            build_parameters: self.build_parameters@,
        }
    }
}

pub struct SourceMetadataView {
    pub added_date: i128,
    pub last_verified: Option<i128>,
    pub last_downloaded: Option<i128>,
    pub downloads_count: u64,
    pub verified: bool,
    pub processing_status: ProcessingStatus,
    pub parent_source: Option<Seq<char>>,
    pub build_info: Option<BuildInfoView>,
}

impl View for SourceMetadata {
    type V = SourceMetadataView;

    open spec fn view(&self) -> SourceMetadataView {
        SourceMetadataView {
            added_date: self.added_date,
            last_verified: self.last_verified,
            last_downloaded: self.last_downloaded,
            downloads_count: self.downloads_count,
            verified: self.verified,
            processing_status: self.processing_status,
            parent_source: opt_view(self.parent_source),
            build_info: match self.build_info {
                Some(b) => Some(b@),
                None => None,
            },
        }
    }
}

pub struct SystemRequirementsView {
    pub cpu_cores: u32,
    pub memory_mb: u64,
    pub disk_gb: u64,
    pub additional_requirements: Option<Seq<char>>,
}

impl View for SystemRequirements {
    type V = SystemRequirementsView;

    open spec fn view(&self) -> SystemRequirementsView {
        SystemRequirementsView {
            cpu_cores: self.cpu_cores,
            memory_mb: self.memory_mb,
            disk_gb: self.disk_gb,
            additional_requirements: opt_view(self.additional_requirements),
        }
    }
}

/// A downloadable image as plain values.
pub struct DownloadSourceView {
    pub name: Seq<char>,
    pub version: Seq<char>,
    pub description: Seq<char>,
    pub url: Seq<char>,
    pub source_type: SourceType,
    pub metadata: SourceMetadataView,
    pub checksum: Option<Seq<char>>,
    pub checksum_type: Option<Seq<char>>,
    pub size: Option<u64>,
    pub compression: Option<Seq<char>>,
    pub platform: Platform,
    pub architecture: Architecture,
    pub minimum_requirements: Option<SystemRequirementsView>,
    pub tags: Seq<Seq<char>>,
    pub mirrors: Seq<Seq<char>>,
    pub license: Option<Seq<char>>,
    pub documentation_url: Option<Seq<char>>,
    pub release_notes: Option<Seq<char>>,
}

impl View for DownloadSource {
    type V = DownloadSourceView;

    open spec fn view(&self) -> DownloadSourceView {
        DownloadSourceView {
            name: self.name@,
            version: self.version@,
            description: self.description@,
            url: self.url@,
            source_type: self.source_type,
            metadata: self.metadata@,
            checksum: opt_view(self.checksum),
            checksum_type: opt_view(self.checksum_type),
            size: self.size,
            compression: opt_view(self.compression),
            platform: self.platform,
            architecture: self.architecture,
            minimum_requirements: match self.minimum_requirements {
                Some(m) => Some(m@),
                None => None,
            },
            tags: views(self.tags@),
            mirrors: views(self.mirrors@),
            license: opt_view(self.license),
            documentation_url: opt_view(self.documentation_url),
            release_notes: opt_view(self.release_notes),
        }
    }
}

impl BuildInfo {
    /// A copy with the same values.
    pub fn duplicate(&self) -> (r: Self)
        ensures
            r@ == self@,
    {
        BuildInfo {
            build_date: self.build_date,
            build_id: copy_string(&self.build_id),
            builder_version: copy_string(&self.builder_version),
            provisioner_version: copy_opt_string(&self.provisioner_version),
            build_parameters: copy_string(&self.build_parameters),
        }
    }
}

impl SourceMetadata {
    /// A copy with the same values.
    pub fn duplicate(&self) -> (r: Self)
        ensures
            r@ == self@,
    {
        SourceMetadata {
            added_date: self.added_date,
            last_verified: self.last_verified,
            last_downloaded: self.last_downloaded,
            downloads_count: self.downloads_count,
            verified: self.verified,
            processing_status: self.processing_status,
            parent_source: copy_opt_string(&self.parent_source),
            build_info: match &self.build_info {
                Some(b) => Some(b.duplicate()),
                None => None,
            },
        }
    }
}

impl SystemRequirements {
    /// A copy with the same values.
    pub fn duplicate(&self) -> (r: Self)
        ensures
            r@ == self@,
    {
        SystemRequirements {
            cpu_cores: self.cpu_cores,
            memory_mb: self.memory_mb,
            disk_gb: self.disk_gb,
            additional_requirements: copy_opt_string(&self.additional_requirements),
        }
    }
}

impl DownloadSource {
    /// A copy with the same values.
    pub fn duplicate(&self) -> (r: Self)
        ensures
            r@ == self@,
    {
        DownloadSource {
            name: copy_string(&self.name),
            version: copy_string(&self.version),
            description: copy_string(&self.description),
            url: copy_string(&self.url),
            source_type: self.source_type,
            metadata: self.metadata.duplicate(),
            checksum: copy_opt_string(&self.checksum),
            checksum_type: copy_opt_string(&self.checksum_type),
            size: self.size,
            compression: copy_opt_string(&self.compression),
            platform: self.platform,
            architecture: self.architecture,
            minimum_requirements: match &self.minimum_requirements {
                Some(m) => Some(m.duplicate()),
                None => None,
            },
            tags: copy_strings(&self.tags),
            mirrors: copy_strings(&self.mirrors),
            license: copy_opt_string(&self.license),
            documentation_url: copy_opt_string(&self.documentation_url),
            release_notes: copy_opt_string(&self.release_notes),
        }
    }
}

/// Errors of the registry and of downloads. An HTTP status is its numeric code.
#[derive(Debug)]
pub enum DownloadError {
    Request(String),
    HttpStatus(u16),
    EmptyContent,
    Io(String),
    Detection(String),
    SourceNotFound(String),
    VersionNotFound(String, String),
    InvalidData(String),
    Registry(String),
}

/// The sources of a list as plain values.
pub open spec fn sources_view(v: Seq<DownloadSource>) -> Seq<DownloadSourceView> {
    v.map_values(|s: DownloadSource| s@)
}

/// The known sources by category, and the sources added by hand by key.
#[derive(Debug)]
pub struct DownloadRegistry {
    pub sources: Vec<(String, Vec<DownloadSource>)>,
    pub custom_sources: Vec<(String, DownloadSource)>,
}

pub struct RegistryView {
    pub sources: Seq<(Seq<char>, Seq<DownloadSourceView>)>,
    pub custom_sources: Seq<(Seq<char>, DownloadSourceView)>,
}

impl RegistryView {
    /// Each category and each custom source is stored under a key of its own.
    pub open spec fn wf(self) -> bool {
        crate::seqs::distinct_keys(self.sources) && crate::seqs::distinct_keys(self.custom_sources)
    }
}

impl View for DownloadRegistry {
    type V = RegistryView;

    open spec fn view(&self) -> RegistryView {
        RegistryView {
            sources: self.sources@.map_values(|c: (String, Vec<DownloadSource>)| (c.0@, sources_view(c.1@))),
            custom_sources: self.custom_sources@.map_values(|c: (String, DownloadSource)| (c.0@, c.1@)),
        }
    }
}

/// An optional string slice as characters.
pub open spec fn opt_str_view(o: Option<&str>) -> Option<Seq<char>> {
    match o {
        Some(s) => Some(s@),
        None => None,
    }
}

/// `true` when no version is asked for, or the asked one is `v`.
pub open spec fn version_ok(v: Seq<char>, version: Option<Seq<char>>) -> bool {
    match version {
        Some(w) => v == w,
        None => true,
    }
}

/// The predicate "has this name, and this version when one is asked for".
pub open spec fn source_matches(name: Seq<char>, version: Option<Seq<char>>) -> spec_fn(DownloadSourceView) -> bool {
    |s: DownloadSourceView| s.name == name && version_ok(s.version, version)
}

/// The first source of a list that matches.
pub open spec fn first_source(list: Seq<DownloadSourceView>, name: Seq<char>, version: Option<Seq<char>>) -> Option<DownloadSourceView> {
    match first_index(list, source_matches(name, version)) {
        Some(i) => Some(list[i]),
        None => None,
    }
}

/// The first matching source over the categories, in order.
pub open spec fn found_in(
    cats: Seq<(Seq<char>, Seq<DownloadSourceView>)>,
    name: Seq<char>,
    version: Option<Seq<char>>,
) -> Option<DownloadSourceView>
    decreases cats.len(),
{
    if cats.len() == 0 {
        None
    } else {
        match found_in(cats.drop_last(), name, version) {
            Some(s) => Some(s),
            None => first_source(cats.last().1, name, version),
        }
    }
}

/// The source a lookup gives: the custom source stored under `name` when its version
/// fits, else the first fitting source among the categories.
pub open spec fn registry_lookup(r: RegistryView, name: Seq<char>, version: Option<Seq<char>>) -> Option<DownloadSourceView> {
    match lookup(r.custom_sources, name) {
        Some(c) => if version_ok(c.version, version) {
            Some(c)
        } else {
            found_in(r.sources, name, version)
        },
        None => found_in(r.sources, name, version),
    }
}

/// The key under which a custom source is stored: `name-version`.
pub open spec fn custom_key(s: DownloadSourceView) -> Seq<char> {
    s.name + seq!['-'] + s.version
}

/// Whether a source has this name and, if asked, this version.
fn fits(s: &DownloadSource, name: &[char], version: Option<&[char]>) -> (r: bool)
    ensures
        r == source_matches(name@, match version { Some(v) => Some(v@), None => None })(s@),
{
    let n = chars_of(s.name.as_str());
    if !chars_eq(n.as_slice(), name) {
        return false;
    }
    match version {
        Some(v) => {
            let sv = chars_of(s.version.as_str());
            chars_eq(sv.as_slice(), v)
        },
        None => true,
    }
}

/// The position of the first source of `list` that fits.
fn first_fit(list: &Vec<DownloadSource>, name: &[char], version: Option<&[char]>) -> (r: Option<usize>)
    ensures
        r matches Some(i) ==> i < list@.len(),
        r is None <==> first_index(sources_view(list@), source_matches(name@, match version { Some(v) => Some(v@), None => None })) is None,
        r matches Some(i) ==> first_index(sources_view(list@), source_matches(name@, match version { Some(v) => Some(v@), None => None })) == Some(i as int),
{
    let ghost ver = match version { Some(v) => Some(v@), None => None };
    let ghost sv = sources_view(list@);
    let mut i: usize = 0;
    while i < list.len()
        invariant
            i <= list.len(),
            ver == match version { Some(v) => Some(v@), None => None },
            sv == sources_view(list@),
            forall|j: int| 0 <= j < i ==> !source_matches(name@, ver)(sv[j]),
        decreases list.len() - i,
    {
        if fits(&list[i], name, version) {
            proof {
                lemma_first_index_at(sv, source_matches(name@, ver), i as int);
            }
            return Some(i);
        }
        i = i + 1;
    }
    proof {
        lemma_first_index_none(sv, source_matches(name@, ver));
    }
    None
}

proof fn lemma_found_stays(cats: Seq<(Seq<char>, Seq<DownloadSourceView>)>, name: Seq<char>, version: Option<Seq<char>>, i: int, j: int)
    requires
        0 <= i <= j <= cats.len(),
        found_in(cats.take(i), name, version) is Some,
    ensures
        found_in(cats.take(j), name, version) == found_in(cats.take(i), name, version),
    decreases j - i,
{
    if j > i {
        lemma_found_stays(cats, name, version, i, j - 1);
        assert(cats.take(j).drop_last() =~= cats.take(j - 1));
    }
}

impl DownloadRegistry {
    /// The position of the custom source stored under `name`.
    fn custom_index(&self, name: &[char]) -> (r: Option<usize>)
        ensures
            r is None <==> first_index(self@.custom_sources, key_is::<DownloadSourceView>(name@)) is None,
            r matches Some(i) ==> i < self.custom_sources@.len()
                && first_index(self@.custom_sources, key_is::<DownloadSourceView>(name@)) == Some(i as int),
    {
        let ghost s = self@.custom_sources;
        let mut k: usize = 0;
        while k < self.custom_sources.len()
            invariant
                k <= self.custom_sources.len(),
                s == self@.custom_sources,
                forall|j: int| 0 <= j < k ==> !key_is::<DownloadSourceView>(name@)(s[j]),
            decreases self.custom_sources.len() - k,
        {
            let kc = chars_of(self.custom_sources[k].0.as_str());
            if chars_eq(kc.as_slice(), name) {
                proof {
                    lemma_first_index_at(s, key_is::<DownloadSourceView>(name@), k as int);
                }
                return Some(k);
            }
            k = k + 1;
        }
        proof {
            lemma_first_index_none(s, key_is::<DownloadSourceView>(name@));
        }
        None
    }

    /// No sources.
    pub fn new() -> (r: Self)
        ensures
            r@.sources.len() == 0,
            r@.custom_sources.len() == 0,
            r@.wf(),
    {
        DownloadRegistry { sources: Vec::new(), custom_sources: Vec::new() }
    }

    /// Finds a source by name, and by version when one is given: first the custom
    /// source stored under `name`, then the categories in order.
    pub fn get_source(&self, name: &str, version: Option<&str>) -> (r: Result<DownloadSource, DownloadError>)
        ensures
            match registry_lookup(self@, name@, opt_str_view(version)) {
                Some(s) => r matches Ok(x) && x@ == s,
                None => r matches Err(DownloadError::SourceNotFound(n)) && n@ == name@,
            },
    {
        let nc = chars_of(name);
        let vc: Option<Vec<char>> = match version {
            Some(v) => Some(chars_of(v)),
            None => None,
        };
        let vs: Option<&[char]> = match &vc {
            Some(v) => Some(v.as_slice()),
            None => None,
        };
        let ghost ver = opt_str_view(version);
        assert(ver == match vs { Some(v) => Some(v@), None => None });
        let ghost me = self@;
        let custom = self.custom_index(nc.as_slice());
        proof {
            lemma_first_index(me.custom_sources, key_is::<DownloadSourceView>(name@));
        }
        match custom {
            Some(j) => {
                let c = &self.custom_sources[j].1;
                assert(me.custom_sources[j as int] == (self.custom_sources@[j as int].0@, c@));
                assert(lookup(me.custom_sources, name@) == Some(c@));
                let ok = match vs {
                    Some(v) => {
                        let cv = chars_of(c.version.as_str());
                        chars_eq(cv.as_slice(), v)
                    },
                    None => true,
                };
                assert(ok == version_ok(c@.version, ver));
                if ok {
                    return Ok(c.duplicate());
                }
            },
            None => {},
        }
        // categories, in order
        assert(registry_lookup(me, name@, ver) == found_in(me.sources, name@, ver));
        let cats = &self.sources;
        let mut i: usize = 0;
        while i < cats.len()
            invariant
                i <= cats.len(),
                me == self@,
                cats@ == self.sources@,
                nc@ == name@,
                ver == opt_str_view(version),
                registry_lookup(me, name@, ver) == found_in(me.sources, name@, ver),
                ver == match vs { Some(v) => Some(v@), None => None },
                found_in(me.sources.take(i as int), name@, ver) is None,
            decreases cats.len() - i,
        {
            proof {
                assert(me.sources.take(i + 1).drop_last() =~= me.sources.take(i as int));
                assert(me.sources[i as int].1 == sources_view(cats@[i as int].1@));
            }
            match first_fit(&cats[i].1, nc.as_slice(), vs) {
                Some(j) => {
                    proof {
                        assert(me.sources[i as int].1[j as int] == cats@[i as int].1@[j as int]@);
                        assert(first_source(me.sources[i as int].1, name@, ver) == Some(cats@[i as int].1@[j as int]@));
                        assert(me.sources.take(i + 1).last() == me.sources[i as int]);
                        lemma_found_stays(me.sources, name@, ver, i + 1, me.sources.len() as int);
                        assert(me.sources.take(me.sources.len() as int) =~= me.sources);
                    }
                    return Ok(cats[i].1[j].duplicate());
                },
                None => {},
            }
            i = i + 1;
        }
        assert(me.sources.take(me.sources.len() as int) =~= me.sources);
        Err(DownloadError::SourceNotFound(String::from_str(name)))
    }

    /// Stores a source under the key `name-version`, replacing one stored there.
    pub fn add_custom_source(&mut self, source: DownloadSource)
        ensures
            final(self)@.sources == old(self)@.sources,
            final(self)@.custom_sources == insert_entry(old(self)@.custom_sources, custom_key(source@), source@),
            old(self)@.wf() ==> final(self)@.wf(),
    {
        proof {
            if old(self)@.wf() {
                crate::seqs::lemma_insert_entry_distinct(old(self)@.custom_sources, custom_key(source@), source@);
            }
        }
        let mut key = copy_string(&source.name);
        append_str(&mut key, "-");
        append_str(&mut key, source.version.as_str());
        proof {
            reveal_strlit("-");
            assert(key@ == custom_key(source@));
        }
        let ghost old_custom = self@.custom_sources;
        let kc = chars_of(key.as_str());
        let mut i: usize = 0;
        while i < self.custom_sources.len()
            invariant
                i <= self.custom_sources.len(),
                self@ == old(self)@,
                old_custom == old(self)@.custom_sources,
                kc@ == key@,
                key@ == custom_key(source@),
                forall|j: int| 0 <= j < i ==> !key_is::<DownloadSourceView>(key@)(old_custom[j]),
                old(self)@.wf() ==> crate::seqs::distinct_keys(
                    insert_entry(old_custom, custom_key(source@), source@),
                ),
            decreases self.custom_sources.len() - i,
        {
            let c = chars_of(self.custom_sources[i].0.as_str());
            if chars_eq(c.as_slice(), kc.as_slice()) {
                proof {
                    lemma_first_index_at(old_custom, key_is::<DownloadSourceView>(key@), i as int);
                }
                let ghost kv = key@;
                let ghost sv = source@;
                self.custom_sources.set(i, (key, source));
                assert(self@.custom_sources =~= old_custom.update(i as int, (kv, sv)));
                assert(insert_entry(old_custom, custom_key(sv), sv) == old_custom.update(i as int, (kv, sv)));
                return;
            }
            i = i + 1;
        }
        proof {
            lemma_first_index_none(old_custom, key_is::<DownloadSourceView>(key@));
        }
        self.custom_sources.push((key, source));
        assert(self@.custom_sources =~= insert_entry(old_custom, custom_key(source@), source@));
    }
}

/// A source added by hand is found again by its key `name-version`, whether or not
/// its version is asked for.
pub proof fn law_added_source_is_found(r: RegistryView, s: DownloadSourceView)
    ensures
        ({
            let added = RegistryView { custom_sources: insert_entry(r.custom_sources, custom_key(s), s), ..r };
            &&& registry_lookup(added, custom_key(s), None) == Some(s)
            &&& registry_lookup(added, custom_key(s), Some(s.version)) == Some(s)
        }),
{
    crate::seqs::lemma_lookup_insert(r.custom_sources, custom_key(s), s);
}

/// Metadata of a source added at `now` and verified then, not yet downloaded.
pub open spec fn fresh_metadata(now: i128) -> SourceMetadataView {
    SourceMetadataView {
        added_date: now,
        last_verified: Some(now),
        last_downloaded: None,
        downloads_count: 0,
        verified: true,
        processing_status: ProcessingStatus::Raw,
        parent_source: None,
        build_info: None,
    }
}

/// The Windows 10 22H2 image the registry starts with.
pub open spec fn windows_10_source(now: i128) -> DownloadSourceView {
    DownloadSourceView {
        name: "windows"@,
        version: "10-22h2-64"@,
        description: "Windows 10 22H2 x64"@,
        url: "https://example.com/win10-22h2-64.iso"@,
        source_type: SourceType::Iso,
        metadata: fresh_metadata(now),
        checksum: Some("abc123"@),
        checksum_type: Some("sha256"@),
        size: Some(5368709120u64),
        compression: None,
        platform: Platform::Windows,
        architecture: Architecture::X86_64,
        minimum_requirements: Some(SystemRequirementsView {
            cpu_cores: 2,
            memory_mb: 4096,
            disk_gb: 64,
            additional_requirements: None,
        }),
        tags: seq!["windows"@, "desktop"@],
        mirrors: Seq::empty(),
        license: Some("Microsoft Windows License"@),
        documentation_url: Some("https://docs.microsoft.com/windows"@),
        release_notes: None,
    }
}

/// The Ubuntu 22.04 server image the registry starts with.
pub open spec fn ubuntu_server_source(now: i128) -> DownloadSourceView {
    DownloadSourceView {
        name: "ubuntu"@,
        version: "22.04-server-64"@,
        description: "Ubuntu 22.04 LTS Server x64"@,
        url: "https://releases.ubuntu.com/22.04/ubuntu-22.04-live-server-amd64.iso"@,
        source_type: SourceType::Iso,
        metadata: fresh_metadata(now),
        checksum: None,
        checksum_type: None,
        size: None,
        compression: None,
        platform: Platform::Linux,
        architecture: Architecture::X86_64,
        minimum_requirements: Some(SystemRequirementsView {
            cpu_cores: 1,
            memory_mb: 2048,
            disk_gb: 25,
            additional_requirements: None,
        }),
        tags: seq!["linux"@, "server"@],
        mirrors: Seq::empty(),
        license: Some("GPL"@),
        documentation_url: Some("https://ubuntu.com/server/docs"@),
        release_notes: Some("https://ubuntu.com/server/releases/22.04"@),
    }
}

/// The categories the registry starts with: `windows`, then `linux`.
pub open spec fn default_sources_view(now: i128) -> Seq<(Seq<char>, Seq<DownloadSourceView>)> {
    seq![("windows"@, seq![windows_10_source(now)]), ("linux"@, seq![ubuntu_server_source(now)])]
}

fn fresh_metadata_exec(now: i128) -> (r: SourceMetadata)
    ensures
        r@ == fresh_metadata(now),
{
    SourceMetadata {
        added_date: now,
        last_verified: Some(now),
        last_downloaded: None,
        downloads_count: 0,
        verified: true,
        processing_status: ProcessingStatus::Raw,
        parent_source: None,
        build_info: None,
    }
}

fn two_strings(a: &str, b: &str) -> (r: Vec<String>)
    ensures
        views(r@) == seq![a@, b@],
{
    let r = vec![String::from_str(a), String::from_str(b)];
    assert(views(r@) =~= seq![a@, b@]);
    r
}

impl DownloadRegistry {
    /// The sources the registry starts with, added and verified at `now` (a Unix
    /// timestamp in nanoseconds).
    pub fn default_sources(now: i128) -> (r: Vec<(String, Vec<DownloadSource>)>)
        ensures
            r@.map_values(|c: (String, Vec<DownloadSource>)| (c.0@, sources_view(c.1@))) == default_sources_view(now),
    {
        let windows = DownloadSource {
            name: String::from_str("windows"),
            version: String::from_str("10-22h2-64"),
            description: String::from_str("Windows 10 22H2 x64"),
            url: String::from_str("https://example.com/win10-22h2-64.iso"),
            source_type: SourceType::Iso,
            metadata: fresh_metadata_exec(now),
            checksum: Some(String::from_str("abc123")),
            checksum_type: Some(String::from_str("sha256")),
            size: Some(5368709120u64),
            compression: None,
            platform: Platform::Windows,
            architecture: Architecture::X86_64,
            minimum_requirements: Some(SystemRequirements {
                cpu_cores: 2,
                memory_mb: 4096,
                disk_gb: 64,
                additional_requirements: None,
            }),
            tags: two_strings("windows", "desktop"),
            mirrors: Vec::new(),
            license: Some(String::from_str("Microsoft Windows License")),
            documentation_url: Some(String::from_str("https://docs.microsoft.com/windows")),
            release_notes: None,
        };
        let ubuntu = DownloadSource {
            name: String::from_str("ubuntu"),
            version: String::from_str("22.04-server-64"),
            description: String::from_str("Ubuntu 22.04 LTS Server x64"),
            url: String::from_str("https://releases.ubuntu.com/22.04/ubuntu-22.04-live-server-amd64.iso"),
            source_type: SourceType::Iso,
            metadata: fresh_metadata_exec(now),
            checksum: None,
            checksum_type: None,
            size: None,
            compression: None,
            platform: Platform::Linux,
            architecture: Architecture::X86_64,
            minimum_requirements: Some(SystemRequirements {
                cpu_cores: 1,
                memory_mb: 2048,
                disk_gb: 25,
                additional_requirements: None,
            }),
            tags: two_strings("linux", "server"),
            mirrors: Vec::new(),
            license: Some(String::from_str("GPL")),
            documentation_url: Some(String::from_str("https://ubuntu.com/server/docs")),
            release_notes: Some(String::from_str("https://ubuntu.com/server/releases/22.04")),
        };
        assert(windows@.mirrors =~= Seq::empty());
        assert(ubuntu@.mirrors =~= Seq::empty());
        assert(windows@ == windows_10_source(now));
        assert(ubuntu@ == ubuntu_server_source(now));
        let r = vec![
            (String::from_str("windows"), vec![windows]),
            (String::from_str("linux"), vec![ubuntu]),
        ];
        proof {
            assert(sources_view(r@[0].1@) =~= seq![windows_10_source(now)]);
            assert(sources_view(r@[1].1@) =~= seq![ubuntu_server_source(now)]);
            assert(r@.map_values(|c: (String, Vec<DownloadSource>)| (c.0@, sources_view(c.1@))) =~= default_sources_view(now));
        }
        r
    }

    /// A registry holding the default sources and no custom ones.
    pub fn with_defaults(now: i128) -> (r: Self)
        ensures
            r@.sources == default_sources_view(now),
            r@.custom_sources.len() == 0,
            r@.wf(),
    {
        let r = DownloadRegistry { sources: Self::default_sources(now), custom_sources: Vec::new() };
        proof {
            reveal_strlit("windows");
            reveal_strlit("linux");
            assert(r@.sources[0].0 != r@.sources[1].0) by {
                assert(r@.sources[0].0[0] != r@.sources[1].0[0]);
            }
        }
        r
    }
}

/// Checks a download's response: an unsuccessful status, then an announced length
/// of zero, are errors.
pub fn check_response(success: bool, status: u16, content_length: Option<u64>) -> (r: Result<(), DownloadError>)
    ensures
        !success ==> (r matches Err(DownloadError::HttpStatus(c)) && c == status),
        success && content_length == Some(0u64) ==> (r matches Err(DownloadError::EmptyContent)),
        success && content_length != Some(0u64) ==> r is Ok,
{
    if !success {
        return Err(DownloadError::HttpStatus(status));
    }
    match content_length {
        Some(n) => if n == 0 {
            Err(DownloadError::EmptyContent)
        } else {
            Ok(())
        },
        None => Ok(()),
    }
}

/// The kind of file that a file-type description (as libmagic words it) names:
/// ISO images, then VM disk images, then archives.
pub open spec fn file_type_of(d: Seq<char>) -> Option<SourceType> {
    if contains_seq(d, "ISO 9660"@) {
        Some(SourceType::Iso)
    } else if contains_seq(d, "VMware"@) || contains_seq(d, "VirtualBox"@) || contains_seq(d, "QEMU"@) {
        Some(SourceType::VmImage)
    } else if contains_seq(d, "gzip"@) || contains_seq(d, "bzip2"@) || contains_seq(d, "Zip"@)
        || contains_seq(d, "RAR"@) {
        Some(SourceType::Archive)
    } else {
        None
    }
}

/// Whether `d` mentions `word`.
fn mentions(d: &[char], word: &str) -> (r: bool)
    ensures
        r == contains_seq(d@, word@),
{
    let w = chars_of(word);
    contains_exec(d, w.as_slice())
}

/// The kind of file a file-type description names; any other file is not supported.
pub fn classify_file_type(description: &str) -> (r: Result<SourceType, DownloadError>)
    ensures
        match file_type_of(description@) {
            Some(t) => r matches Ok(x) && x == t,
            None => r matches Err(DownloadError::Detection(m)) && m@ == "File type: "@ + description@ + " is not supported"@,
        },
{
    let d = chars_of(description);
    let d = d.as_slice();
    if mentions(d, "ISO 9660") {
        Ok(SourceType::Iso)
    } else if mentions(d, "VMware") || mentions(d, "VirtualBox") || mentions(d, "QEMU") {
        Ok(SourceType::VmImage)
    } else if mentions(d, "gzip") || mentions(d, "bzip2") || mentions(d, "Zip") || mentions(d, "RAR") {
        Ok(SourceType::Archive)
    } else {
        let mut m = String::from_str("File type: ");
        append_str(&mut m, description);
        append_str(&mut m, " is not supported");
        Err(DownloadError::Detection(m))
    }
}

/// The name a kind of file goes by in paths and messages.
pub open spec fn source_type_name(t: SourceType) -> Seq<char> {
    match t {
        SourceType::Iso => "iso"@,
        SourceType::VmImage => "vm_image"@,
        SourceType::ContainerImage => "container_image"@,
        SourceType::Archive => "archive"@,
    }
}

/// The name a kind of file goes by in paths and messages.
pub fn source_type_str(t: SourceType) -> (r: &'static str)
    ensures
        r@ == source_type_name(t),
{
    match t {
        SourceType::Iso => "iso",
        SourceType::VmImage => "vm_image",
        SourceType::ContainerImage => "container_image",
        SourceType::Archive => "archive",
    }
}

/// The file name that a `Content-Disposition` value gives: the text after the first
/// `filename=`, up to a further `filename=`, without surrounding double quotes.
pub open spec fn disposition_filename(cd: Seq<char>) -> Option<Seq<char>> {
    match find_seq(cd, "filename="@) {
        None => None,
        Some(i) => {
            let rest = cd.skip(i + "filename="@.len());
            let piece = match find_seq(rest, "filename="@) {
                Some(j) => rest.take(j),
                None => rest,
            };
            Some(trim_char(piece, '"'))
        },
    }
}

/// The file name a `Content-Disposition` header value announces, if any.
pub fn get_filename_from_headers(content_disposition: Option<&str>) -> (r: Option<String>)
    ensures
        match content_disposition {
            Some(cd) => opt_view(r) == disposition_filename(cd@),
            None => r is None,
        },
{
    match content_disposition {
        None => None,
        Some(cd) => {
            let c = chars_of(cd);
            let pat = chars_of("filename=");
            match find_exec(c.as_slice(), pat.as_slice()) {
                None => None,
                Some(i) => {
                    assert(i + pat@.len() <= c@.len());
                    assert(pat@.len() == pat.len());
                    let n = c.len();
                    assert(n == c@.len());
                    let start: usize = i + pat.len();
                    let rest = slice_chars(c.as_slice(), start, c.len());
                    assert(rest@ =~= c@.skip(i + pat@.len()));
                    let piece = match find_exec(rest.as_slice(), pat.as_slice()) {
                        Some(j) => slice_chars(rest.as_slice(), 0, j),
                        None => rest,
                    };
                    let t = trim_char_exec(piece.as_slice(), '"');
                    Some(string_of(t.as_slice()))
                },
            }
        },
    }
}

/// The name a downloaded file is saved under: `name-version.iso` for a known source,
/// else the name the server announces, else the last segment of the URL's path,
/// else `download.bin`.
pub open spec fn download_filename_of(
    source: Option<DownloadSourceView>,
    announced: Option<Seq<char>>,
    last_segment: Option<Seq<char>>,
) -> Seq<char> {
    match source {
        Some(s) => s.name + seq!['-'] + s.version + ".iso"@,
        None => match announced {
            Some(f) => f,
            None => match last_segment {
                Some(f) => f,
                None => "download.bin"@,
            },
        },
    }
}

/// The view of an optional source.
pub open spec fn opt_source_view(s: Option<&DownloadSource>) -> Option<DownloadSourceView> {
    match s {
        Some(x) => Some(x@),
        None => None,
    }
}

/// The name a downloaded file is saved under.
pub fn download_filename(
    source: Option<&DownloadSource>,
    announced: Option<String>,
    last_segment: Option<String>,
) -> (r: String)
    ensures
        r@ == download_filename_of(opt_source_view(source), opt_view(announced), opt_view(last_segment)),
{
    match source {
        Some(src) => {
            let mut f = copy_string(&src.name);
            append_str(&mut f, "-");
            append_str(&mut f, src.version.as_str());
            append_str(&mut f, ".iso");
            proof {
                reveal_strlit("-");
            }
            f
        },
        None => match announced {
            Some(f) => f,
            None => match last_segment {
                Some(f) => f,
                None => String::from_str("download.bin"),
            },
        },
    }
}

/// The directory a download is saved in: `<dir>/<type>/<name>/<version>` for a known
/// source, else `<dir>/direct/<detected type>`.
pub open spec fn download_dir_of(dir: Seq<char>, source: Option<DownloadSourceView>, detected: SourceType) -> Seq<char> {
    match source {
        Some(s) => path_join(path_join(path_join(dir, source_type_name(s.source_type)), s.name), s.version),
        None => path_join(path_join(dir, "direct"@), source_type_name(detected)),
    }
}

/// The directory a download is saved in.
pub fn download_dir_for(dir: &str, source: Option<&DownloadSource>, detected: SourceType) -> (r: String)
    ensures
        r@ == download_dir_of(dir@, opt_source_view(source), detected),
{
    match source {
        Some(s) => {
            let a = path_join_exec(dir, source_type_str(s.source_type));
            let b = path_join_exec(a.as_str(), s.name.as_str());
            path_join_exec(b.as_str(), s.version.as_str())
        },
        None => {
            let a = path_join_exec(dir, "direct");
            path_join_exec(a.as_str(), source_type_str(detected))
        },
    }
}

/// Where a download is written: the explicit output path when one is given, else
/// the file name inside the download's directory.
pub fn download_target(
    dir: &str,
    output: Option<&str>,
    source: Option<&DownloadSource>,
    detected: SourceType,
    filename: &str,
) -> (r: String)
    ensures
        r@ == match output {
            Some(o) => o@,
            None => path_join(download_dir_of(dir@, opt_source_view(source), detected), filename@),
        },
{
    match output {
        Some(o) => String::from_str(o),
        None => {
            let d = download_dir_for(dir, source, detected);
            path_join_exec(d.as_str(), filename)
        },
    }
}

/// The progress message while a download is written.
pub fn writing_message(source: Option<&DownloadSource>, detected: SourceType) -> (r: String)
    ensures
        r@ == match source {
            Some(s) => "Writing "@ + s.name@ + " "@ + s.version@ + " ("@ + source_type_name(detected) + ")"@,
            None => "Writing "@ + source_type_name(detected) + " file"@,
        },
{
    let mut m = String::from_str("Writing ");
    match source {
        Some(s) => {
            append_str(&mut m, s.name.as_str());
            append_str(&mut m, " ");
            append_str(&mut m, s.version.as_str());
            append_str(&mut m, " (");
            append_str(&mut m, source_type_str(detected));
            append_str(&mut m, ")");
        },
        None => {
            append_str(&mut m, source_type_str(detected));
            append_str(&mut m, " file");
        },
    }
    m
}

/// Law: how a file-type description is classified, word by word: an ISO 9660
/// description is an ISO image; one that mentions VMware, VirtualBox or QEMU (and is
/// not ISO 9660) is a virtual machine image; one that mentions gzip, bzip2, Zip or
/// RAR (and none of those) is an archive; any other file is not supported.
pub proof fn law_file_types_by_word(d: Seq<char>)
    ensures
        contains_seq(d, "ISO 9660"@) ==> file_type_of(d) == Some(SourceType::Iso),
        !contains_seq(d, "ISO 9660"@) && contains_seq(d, "VMware"@) ==> file_type_of(d) == Some(SourceType::VmImage),
        !contains_seq(d, "ISO 9660"@) && contains_seq(d, "VirtualBox"@) ==> file_type_of(d) == Some(SourceType::VmImage),
        !contains_seq(d, "ISO 9660"@) && contains_seq(d, "QEMU"@) ==> file_type_of(d) == Some(SourceType::VmImage),
        ({
            let vm_or_iso = contains_seq(d, "ISO 9660"@) || contains_seq(d, "VMware"@) || contains_seq(d, "VirtualBox"@)
                || contains_seq(d, "QEMU"@);
            &&& !vm_or_iso && contains_seq(d, "gzip"@) ==> file_type_of(d) == Some(SourceType::Archive)
            &&& !vm_or_iso && contains_seq(d, "bzip2"@) ==> file_type_of(d) == Some(SourceType::Archive)
            &&& !vm_or_iso && contains_seq(d, "Zip"@) ==> file_type_of(d) == Some(SourceType::Archive)
            &&& !vm_or_iso && contains_seq(d, "RAR"@) ==> file_type_of(d) == Some(SourceType::Archive)
        }),
        file_type_of(d) is None <==> !(contains_seq(d, "ISO 9660"@) || contains_seq(d, "VMware"@) || contains_seq(
            d,
            "VirtualBox"@,
        ) || contains_seq(d, "QEMU"@) || contains_seq(d, "gzip"@) || contains_seq(d, "bzip2"@) || contains_seq(
            d,
            "Zip"@,
        ) || contains_seq(d, "RAR"@)),
{
}

/// Law: what a search over the categories finds has the name asked for and, when a
/// version is asked for, that version; it is the first fitting source of the first
/// category that holds one. When it finds nothing, no source of any category has
/// that name (and version).
pub proof fn law_found_source_fits_the_request(
    cats: Seq<(Seq<char>, Seq<DownloadSourceView>)>,
    name: Seq<char>,
    version: Option<Seq<char>>,
)
    ensures
        found_in(cats, name, version) matches Some(s) ==> s.name == name && version_ok(s.version, version)
            && exists|c: int, k: int|
            0 <= c < cats.len() && 0 <= k < cats[c].1.len() && #[trigger] cats[c].1[k] == s && (forall|j: int|
                0 <= j < k ==> !source_matches(name, version)(#[trigger] cats[c].1[j])) && (forall|c2: int, j: int|
                0 <= c2 < c && 0 <= j < cats[c2].1.len() ==> !source_matches(name, version)(#[trigger] cats[c2].1[j])),
        found_in(cats, name, version) is None ==> forall|c: int, k: int|
            0 <= c < cats.len() && 0 <= k < cats[c].1.len() ==> !(#[trigger] cats[c].1[k].name == name && version_ok(
                cats[c].1[k].version,
                version,
            )),
    decreases cats.len(),
{
    if cats.len() > 0 {
        let d = cats.drop_last();
        let last = cats.len() - 1;
        law_found_source_fits_the_request(d, name, version);
        let list = cats.last().1;
        crate::seqs::lemma_first_index(list, source_matches(name, version));
        match found_in(d, name, version) {
            Some(s) => {
                let (c, k) = choose|c: int, k: int|
                    0 <= c < d.len() && 0 <= k < d[c].1.len() && #[trigger] d[c].1[k] == s && (forall|j: int|
                        0 <= j < k ==> !source_matches(name, version)(#[trigger] d[c].1[j])) && (forall|c2: int, j: int|
                        0 <= c2 < c && 0 <= j < d[c2].1.len() ==> !source_matches(name, version)(#[trigger] d[c2].1[j]));
                assert(cats[c] == d[c]);
                assert(cats[c].1[k] == s);
                assert forall|c2: int, j: int| 0 <= c2 < c && 0 <= j < cats[c2].1.len() implies !source_matches(
                    name,
                    version,
                )(#[trigger] cats[c2].1[j]) by {
                    assert(cats[c2] == d[c2]);
                }
            },
            None => {
                assert forall|c2: int, j: int| 0 <= c2 < last && 0 <= j < cats[c2].1.len() implies !source_matches(
                    name,
                    version,
                )(#[trigger] cats[c2].1[j]) by {
                    assert(cats[c2] == d[c2]);
                    assert(!(d[c2].1[j].name == name && version_ok(d[c2].1[j].version, version)));
                }
                match first_index(list, source_matches(name, version)) {
                    Some(i) => {
                        assert(cats[last].1[i] == list[i]);
                    },
                    None => {
                        assert forall|c: int, k: int| 0 <= c < cats.len() && 0 <= k < cats[c].1.len() implies !(
                            #[trigger] cats[c].1[k].name == name && version_ok(cats[c].1[k].version, version)) by {
                            if c < last {
                                assert(cats[c] == d[c]);
                            } else {
                                assert(!source_matches(name, version)(list[k]));
                            }
                        }
                    },
                }
            },
        }
    }
}

/// Law: a lookup gives the custom source stored under the name asked for, or a
/// source of that name from the categories; either way its version is the one asked
/// for, when one is. When it gives nothing, no category holds a fitting source.
pub proof fn law_lookup_fits_the_request(r: RegistryView, name: Seq<char>, version: Option<Seq<char>>)
    ensures
        registry_lookup(r, name, version) matches Some(s) ==> version_ok(s.version, version) && (lookup(
            r.custom_sources,
            name,
        ) == Some(s) || s.name == name),
        registry_lookup(r, name, version) is None ==> forall|c: int, k: int|
            0 <= c < r.sources.len() && 0 <= k < r.sources[c].1.len() ==> !(#[trigger] r.sources[c].1[k].name == name
                && version_ok(r.sources[c].1[k].version, version)),
{
    law_found_source_fits_the_request(r.sources, name, version);
}

} // verus!
