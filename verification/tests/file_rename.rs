use mylib::file_mgmt_operation::{default_ondup, ErrNo, RenameOutcome};
use mylib::file_rename::{BaiduDirectory, File, ListingError};

fn file(name: &str, path: &str) -> File {
    File { server_filename: name.to_string(), path: path.to_string() }
}

fn directory(names: &[(&str, &str)]) -> BaiduDirectory {
    BaiduDirectory { errno: 0, list: names.iter().map(|(n, p)| file(n, p)).collect() }
}

#[test]
fn find_episodes_reads_the_dollar_marks() {
    assert_eq!(BaiduDirectory::find_episodes("aabbccS01$01$.mp4"), (9, 11));
}

#[test]
fn find_episodes_counts_bytes_of_wide_characters() {
    assert_eq!(BaiduDirectory::find_episodes("[字幕组]S01E$05$.mp4"), (15, 17));
}

#[test]
fn episode_tag_validity() {
    assert!(BaiduDirectory::episode_tag_is_valid("ab$01$.mp4"));
    assert!(BaiduDirectory::episode_tag_is_valid("a$"));
    assert!(!BaiduDirectory::episode_tag_is_valid("$"));
    assert!(!BaiduDirectory::episode_tag_is_valid("no tag.mp4"));
}

#[test]
fn new_filename_builds_season_episode_extension() {
    let f = file("aabbccS0101.mp4", "/tv/aabbccS0101.mp4");
    assert_eq!(BaiduDirectory::new_filename(&f, "S01", 9, 11), "S01E01.mp4");
}

#[test]
fn new_filename_keeps_last_extension_and_wide_characters() {
    let f = file("[字幕组]S01E05.chs.mkv", "/tv/x");
    assert_eq!(BaiduDirectory::new_filename(&f, "S02", 15, 17), "S02E05.mkv");
}

#[test]
fn episode_takeable_checks_bounds_and_boundaries() {
    let f = file("[字幕组]S01E05.mp4", "/tv/x");
    assert!(BaiduDirectory::episode_is_takeable(&f, 15, 17));
    assert!(!BaiduDirectory::episode_is_takeable(&f, 2, 3));
    assert!(!BaiduDirectory::episode_is_takeable(&f, 17, 15));
    assert!(!BaiduDirectory::episode_is_takeable(&f, 15, 40));
    assert!(!BaiduDirectory::episode_is_takeable(&file("noext", "/x"), 0, 1));
}

#[test]
fn get_all_new_files_renames_every_file_in_order() {
    let d = directory(&[("show0101.mp4", "/a/show0101.mp4"), ("show0102.mkv", "/a/show0102.mkv")]);
    assert!(d.episode_names_are_buildable("show01$01$.mp4"));
    assert_eq!(d.get_all_new_files("S01", "show01$01$.mp4"), vec!["S01E01.mp4", "S01E02.mkv"]);
}

#[test]
fn names_not_buildable_for_short_name_or_bad_tag() {
    let d = directory(&[("show0101.mp4", "/a"), ("s.mp4", "/b")]);
    assert!(!d.episode_names_are_buildable("show01$01$.mp4"));
    let d = directory(&[("show0101.mp4", "/a")]);
    assert!(!d.episode_names_are_buildable("show0101.mp4"));
}

#[test]
fn tagging_the_example_name_selects_its_episode() {
    // the tagged name is the example name with '$' around the episode
    let d = directory(&[("Friends.S03E17.720p.mkv", "/f")]);
    let tagged = "Friends.S03E$17$.720p.mkv";
    let (b, e) = BaiduDirectory::find_episodes(tagged);
    assert_eq!(&"Friends.S03E17.720p.mkv"[b..e], "17");
    assert_eq!(d.get_all_new_files("S03", tagged), vec!["S03E17.mkv"]);
}

#[test]
fn new_extension_replaces_after_last_dot() {
    let f = file("movie.part1.mkv", "/m");
    assert_eq!(BaiduDirectory::new_extension(&f, "mp4"), "movie.part1.mp4");
    assert!(BaiduDirectory::has_extension(&f));
    assert!(!BaiduDirectory::has_extension(&file("README", "/r")));
}

#[test]
fn extension_change_keeps_stem_and_sets_extension() {
    let f = file("电影.avi", "/m");
    let renamed = BaiduDirectory::new_extension(&f, "mp4");
    assert_eq!(renamed, "电影.mp4");
    let again = BaiduDirectory::new_extension(&file(&renamed, "/m"), "mkv");
    assert_eq!(again, "电影.mkv");
}

#[test]
fn compare_new_old_extension_line() {
    let d = directory(&[("a.rmvb", "/a"), ("b.avi", "/b")]);
    assert_eq!(d.compare_new_old_extension("mp4"), "rmvb -> mp4");
}

#[test]
fn extensions_replaceable_only_when_all_have_one() {
    assert!(directory(&[("a.rmvb", "/a"), ("b.avi", "/b")]).extensions_are_replaceable());
    assert!(!directory(&[("a.rmvb", "/a"), ("b", "/b")]).extensions_are_replaceable());
    assert!(directory(&[]).extensions_are_replaceable());
}

#[test]
fn rename_files_request_fields() {
    let d = directory(&[("show0101.mp4", "/a/show0101.mp4"), ("show0102.mkv", "/a/show0102.mkv")]);
    let r = d.rename_files_request("S01", "TOKEN", "show01$01$.mp4");
    assert_eq!(
        r.url,
        "https://pan.baidu.com/rest/2.0/xpan/file?method=filemanager&access_token=TOKEN&opera=rename"
    );
    assert_eq!(r.async_mode, "2");
    assert_eq!(r.ondup, "fail");
    assert_eq!(
        r.filelist,
        "[{\"path\":\"/a/show0101.mp4\",\"newname\":\"S01E01.mp4\"},{\"path\":\"/a/show0102.mkv\",\"newname\":\"S01E02.mkv\"}]"
    );
}

#[test]
fn rename_extension_request_fields() {
    let d = directory(&[("a.avi", "/x/a.avi")]);
    let r = d.rename_extension_request("T", "mp4");
    assert_eq!(r.filelist, "[{\"path\":\"/x/a.avi\",\"newname\":\"a.mp4\"}]");
    assert_eq!(r.async_mode, "2");
    assert_eq!(r.ondup, "fail");
}

#[test]
fn rename_request_of_empty_listing() {
    let d = directory(&[]);
    assert_eq!(d.rename_extension_request("T", "mp4").filelist, "[]");
}

#[test]
fn files_url_percent_encodes_the_directory() {
    assert_eq!(
        BaiduDirectory::files_url("我的 目录/Season_1~", "tok"),
        "https://pan.baidu.com/rest/2.0/xpan/file?method=list&dir=%E6%88%91%E7%9A%84%20%E7%9B%AE%E5%BD%95%2FSeason_1~&web=0&access_token=tok"
    );
}

#[test]
fn listing_status_by_errno() {
    assert_eq!(BaiduDirectory::listing_status(0), Ok(()));
    assert_eq!(BaiduDirectory::listing_status(-7), Err(ListingError::NoAccess));
    assert_eq!(BaiduDirectory::listing_status(-9), Err(ListingError::NotFound));
    assert_eq!(BaiduDirectory::listing_status(31066), Err(ListingError::Unknown));
}

#[test]
fn listing_error_messages() {
    assert_eq!(ListingError::NoAccess.message(), "文件或目录无权访问");
    assert_eq!(ListingError::NotFound.message(), "文件或目录不存在");
    assert_eq!(ListingError::Unknown.message(), "Unknown Error Occurs.");
}

#[test]
fn rename_outcome_by_errno() {
    let o = |e: i32| ErrNo { errno: e }.rename_outcome();
    assert_eq!(o(0), RenameOutcome::Success);
    assert_eq!(o(-9), RenameOutcome::FileNotFound);
    assert_eq!(o(111), RenameOutcome::OtherTaskRunning);
    assert_eq!(o(-7), RenameOutcome::IllegalName);
    assert_eq!(o(2), RenameOutcome::BadParameter);
    assert_eq!(o(12), RenameOutcome::Unknown);
}

#[test]
fn rename_outcome_messages() {
    assert_eq!(RenameOutcome::Success.message(), "success!");
    assert_eq!(RenameOutcome::FileNotFound.message(), "文件不存在.");
    assert_eq!(RenameOutcome::OtherTaskRunning.message(), "有其他异步任务正在执行");
    assert_eq!(RenameOutcome::IllegalName.message(), "文件名非法");
    assert_eq!(RenameOutcome::BadParameter.message(), "参数错误");
    assert_eq!(RenameOutcome::Unknown.message(), "Unkownn Error Occusr.");
}

#[test]
fn default_ondup_is_fail() {
    assert_eq!(default_ondup(), "fail");
}
