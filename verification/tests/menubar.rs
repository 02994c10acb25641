use gqy::menubar::{
    app_dir, clang_args, first_present, icon_png, icon_sizes, menubar_sources, share_copies,
    source_dirs, version_commands, NO_SOURCES,
};

#[test]
fn menubar_sources_are_found_in_order() {
    assert_eq!(source_dirs("/s")[1], "/s/menubar");
    assert_eq!(menubar_sources("/s", &[false, true, true]).unwrap(), "/s/menubar");
    assert_eq!(menubar_sources("/s", &[false, false, false]).unwrap_err(), NO_SOURCES);
    assert_eq!(first_present(&[false, false, true]), Some(2));
    assert_eq!(first_present(&[]), None);
}

#[test]
fn icon_and_build_arguments() {
    assert_eq!(icon_png("/s", false, true), "/s/GQY-icon.png");
    assert_eq!(icon_png("/s", false, false), "/s/pics/GQY-icon.png");
    let sizes = icon_sizes();
    assert_eq!(sizes.len(), 10);
    assert_eq!(sizes[9], (1024, "icon_512x512@2x.png"));
    let args = clang_args("/t/cache", "/m/main.m", "/t/GQYMenuBar");
    assert_eq!(args[2], "-fmodules-cache-path=/t/cache");
    assert_eq!(&args[12..], &["/m/main.m", "-o", "/t/GQYMenuBar"]);
    let (short, full) = version_commands("0.3.1");
    assert_eq!(short, "Set :CFBundleShortVersionString 0.3.1");
    assert_eq!(full, "Set :CFBundleVersion 0.3.1");
    assert_eq!(app_dir("/Users/g"), "/Users/g/Applications/顾清影.app");
}

#[test]
fn shared_resources_are_copied_once_per_place() {
    let plan = share_copies("/s", &[true, true, false, true, false, true]);
    assert_eq!(
        plan,
        vec![
            ("/s/scripts".to_string(), "scripts"),
            ("/s/memes".to_string(), "memes"),
            ("/s/communication".to_string(), "bridges"),
        ]
    );
    let plan = share_copies("/s", &[false, true, true, true, true, false]);
    assert_eq!(plan[0], ("/s/src/scripts".to_string(), "scripts"));
    assert_eq!(plan[1], ("/s/src/memes".to_string(), "memes"));
    assert_eq!(plan.len(), 3);
}
