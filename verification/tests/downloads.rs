use malbox::download::{
    check_response, classify_file_type, download_dir_for, download_filename, download_target,
    get_filename_from_headers, source_type_str, writing_message, Architecture, DownloadError, DownloadRegistry,
    DownloadSource, Platform, ProcessingStatus, SourceMetadata, SourceType,
};

fn source(name: &str, version: &str, t: SourceType) -> DownloadSource {
    DownloadSource {
        name: name.to_string(),
        version: version.to_string(),
        description: "custom".to_string(),
        url: "https://example.org/x.iso".to_string(),
        source_type: t,
        metadata: SourceMetadata {
            added_date: 7,
            last_verified: None,
            last_downloaded: None,
            downloads_count: 0,
            verified: false,
            processing_status: ProcessingStatus::Raw,
            parent_source: None,
            build_info: None,
        },
        checksum: None,
        checksum_type: None,
        size: None,
        compression: None,
        platform: Platform::Linux,
        architecture: Architecture::X86_64,
        minimum_requirements: None,
        tags: vec![],
        mirrors: vec![],
        license: None,
        documentation_url: None,
        release_notes: None,
    }
}

#[test]
fn default_registry_knows_windows_and_ubuntu() {
    let r = DownloadRegistry::with_defaults(1_000);
    assert!(r.custom_sources.is_empty());
    let cats: Vec<&str> = r.sources.iter().map(|(c, _)| c.as_str()).collect();
    assert_eq!(cats, vec!["windows", "linux"]);
    let w = r.get_source("windows", None).unwrap();
    assert_eq!(w.version, "10-22h2-64");
    assert_eq!(w.url, "https://example.com/win10-22h2-64.iso");
    assert_eq!(w.size, Some(5368709120));
    assert_eq!(w.metadata.added_date, 1_000);
    assert_eq!(w.metadata.last_verified, Some(1_000));
    assert!(w.metadata.verified);
    assert_eq!(w.tags, vec!["windows".to_string(), "desktop".to_string()]);
    let u = r.get_source("ubuntu", Some("22.04-server-64")).unwrap();
    assert_eq!(u.platform, Platform::Linux);
    assert_eq!(u.minimum_requirements.as_ref().unwrap().memory_mb, 2048);
    match r.get_source("ubuntu", Some("20.04")) {
        Err(DownloadError::SourceNotFound(n)) => assert_eq!(n, "ubuntu"),
        other => panic!("{:?}", other),
    }
    assert!(matches!(r.get_source("arch", None), Err(DownloadError::SourceNotFound(_))));
}

#[test]
fn custom_sources_are_stored_by_name_and_version() {
    let mut r = DownloadRegistry::new();
    assert!(r.sources.is_empty());
    r.add_custom_source(source("tools", "1.0", SourceType::Archive));
    assert_eq!(r.custom_sources.len(), 1);
    assert_eq!(r.custom_sources[0].0, "tools-1.0");
    let found = r.get_source("tools-1.0", None).unwrap();
    assert_eq!(found.source_type, SourceType::Archive);
    assert!(r.get_source("tools-1.0", Some("1.0")).is_ok());
    assert!(r.get_source("tools-1.0", Some("2.0")).is_err());
    assert!(r.get_source("tools", None).is_err());
    r.add_custom_source(source("tools", "1.0", SourceType::Iso));
    assert_eq!(r.custom_sources.len(), 1);
    assert_eq!(r.get_source("tools-1.0", None).unwrap().source_type, SourceType::Iso);
}

#[test]
fn a_custom_source_comes_before_the_categories() {
    let mut r = DownloadRegistry::with_defaults(0);
    let mut s = source("windows", "", SourceType::Archive);
    s.description = "mine".to_string();
    r.add_custom_source(s);
    assert_eq!(r.get_source("windows-", None).unwrap().description, "mine");
    assert_eq!(r.get_source("windows", None).unwrap().description, "Windows 10 22H2 x64");
}

#[test]
fn responses_are_checked() {
    assert!(matches!(check_response(false, 404, Some(10)), Err(DownloadError::HttpStatus(404))));
    assert!(matches!(check_response(true, 200, Some(0)), Err(DownloadError::EmptyContent)));
    assert!(check_response(true, 200, Some(1)).is_ok());
    assert!(check_response(true, 200, None).is_ok());
}

#[test]
fn file_types_are_classified() {
    assert_eq!(classify_file_type("ISO 9660 CD-ROM filesystem data").unwrap(), SourceType::Iso);
    assert_eq!(classify_file_type("QEMU QCOW2 Image (v3)").unwrap(), SourceType::VmImage);
    assert_eq!(classify_file_type("VirtualBox Disk Image").unwrap(), SourceType::VmImage);
    assert_eq!(classify_file_type("gzip compressed data").unwrap(), SourceType::Archive);
    assert_eq!(classify_file_type("Zip archive data").unwrap(), SourceType::Archive);
    match classify_file_type("ASCII text") {
        Err(DownloadError::Detection(m)) => assert_eq!(m, "File type: ASCII text is not supported"),
        other => panic!("{:?}", other),
    }
    assert_eq!(source_type_str(SourceType::Iso), "iso");
    assert_eq!(source_type_str(SourceType::VmImage), "vm_image");
    assert_eq!(source_type_str(SourceType::ContainerImage), "container_image");
    assert_eq!(source_type_str(SourceType::Archive), "archive");
}

#[test]
fn file_names_from_headers() {
    assert_eq!(get_filename_from_headers(Some("attachment; filename=\"win.iso\"")), Some("win.iso".to_string()));
    assert_eq!(get_filename_from_headers(Some("attachment; filename=a.iso")), Some("a.iso".to_string()));
    assert_eq!(get_filename_from_headers(Some("inline")), None);
    assert_eq!(get_filename_from_headers(None), None);
}

#[test]
fn where_downloads_go() {
    let s = source("tools", "1.0", SourceType::Archive);
    assert_eq!(download_filename(Some(&s), Some("x".to_string()), None), "tools-1.0.iso");
    assert_eq!(download_filename(None, Some("x.iso".to_string()), Some("y".to_string())), "x.iso");
    assert_eq!(download_filename(None, None, Some("y.img".to_string())), "y.img");
    assert_eq!(download_filename(None, None, None), "download.bin");
    assert_eq!(download_dir_for("/dl", Some(&s), SourceType::Iso), "/dl/archive/tools/1.0");
    assert_eq!(download_dir_for("/dl", None, SourceType::Iso), "/dl/direct/iso");
    assert_eq!(download_target("/dl", None, None, SourceType::VmImage, "a.qcow2"), "/dl/direct/vm_image/a.qcow2");
    assert_eq!(download_target("/dl", Some("/tmp/out"), Some(&s), SourceType::Iso, "f"), "/tmp/out");
    assert_eq!(writing_message(Some(&s), SourceType::Iso), "Writing tools 1.0 (iso)");
    assert_eq!(writing_message(None, SourceType::Archive), "Writing archive file");
}

#[test]
fn a_duplicate_is_equal_in_every_field() {
    let s = source("tools", "1.0", SourceType::Archive);
    let d = s.duplicate();
    assert_eq!(format!("{:?}", s), format!("{:?}", d));
}
