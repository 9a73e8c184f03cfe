use mihub_lib::updater::{check_for_updates_reply, start_update_reply, AppUpdate, DownloadProgress};

fn s(text: &str) -> String {
    text.to_string()
}

#[test]
fn progress_accumulates_chunks() {
    let mut progress = DownloadProgress::new();
    let version = s("1.2.0");
    let first = progress.record_chunk(100, Some(250), &version);
    assert_eq!(first, AppUpdate { total_size: Some(250), downloaded_size: 100, version: s("1.2.0") });
    let second = progress.record_chunk(150, Some(250), &version);
    assert_eq!(second.downloaded_size, 250);
    let third = progress.record_chunk(0, None, &version);
    assert_eq!(third, AppUpdate { total_size: None, downloaded_size: 250, version: s("1.2.0") });
    assert_eq!(progress.downloaded, 250);
}

#[test]
fn check_replies() {
    assert_eq!(check_for_updates_reply(Ok(Ok(true))), Ok(true));
    assert_eq!(check_for_updates_reply(Ok(Ok(false))), Ok(false));
    assert_eq!(
        check_for_updates_reply(Ok(Err(s("network down")))),
        Err(s("Failed to check for updates: network down"))
    );
    assert_eq!(check_for_updates_reply(Err(s("no config"))), Err(s("Updater not available: no config")));
}

#[test]
fn start_update_replies() {
    assert_eq!(start_update_reply(Ok(())), Ok(()));
    assert_eq!(start_update_reply(Err(s("bad signature"))), Err(s("Update failed: bad signature")));
}
