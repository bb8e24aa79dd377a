use pastebin::id::RecordId;
use pastebin::model::{DataBaseErrorType, DataBaseItem, DataType};
use pastebin::request::{split_view_key, upload_report, UploadStatus, ViewKey};

fn key(database_key: &str, ext: &str, has_ext: bool) -> ViewKey {
    ViewKey { database_key: String::from(database_key), ext: String::from(ext), has_ext }
}

fn item(payload: &str) -> DataBaseItem {
    let id = RecordId { bytes: [5; 16] };
    DataBaseItem::with_id(id, DataType::Text(String::from(payload)), None, None).unwrap()
}

#[test]
fn path_without_extension_is_lowered() {
    assert_eq!(split_view_key("3p0c"), key("3p0c", "txt", false));
    assert_eq!(split_view_key("3P0C"), key("3p0c", "txt", false));
    assert_eq!(split_view_key("My-Alias"), key("my-alias", "txt", false));
    assert_eq!(split_view_key("\u{c9}t\u{e9}"), key("\u{e9}t\u{e9}", "txt", false));
    assert_eq!(split_view_key(""), key("", "txt", false));
}

#[test]
fn path_with_extension_is_split_and_kept_as_written() {
    assert_eq!(split_view_key("3p0c.rs"), key("3p0c", "rs", true));
    assert_eq!(split_view_key("3P0C.RS"), key("3P0C", "RS", true));
    assert_eq!(split_view_key("a.tar.gz"), key("a", "gz", true));
    assert_eq!(split_view_key("name."), key("name", "", true));
    assert_eq!(split_view_key(".png"), key("", "png", true));
    assert_eq!(split_view_key("."), key("", "", true));
    assert_eq!(split_view_key("a..b"), key("a", "b", true));
    assert_eq!(split_view_key("\u{e9}t\u{e9}.\u{e9}"), key("\u{e9}t\u{e9}", "\u{e9}", true));
}

#[test]
fn words_of_the_upload_status() {
    assert_eq!(UploadStatus::Created.to_string(), "created");
    assert_eq!(UploadStatus::Existed.to_string(), "existed");
    assert_eq!(UploadStatus::Failed.to_string(), "failed");
}

#[test]
fn report_of_an_upload() {
    let mine = item("mine");
    let theirs = item("theirs");
    assert_eq!(upload_report(Ok(()), mine.clone()), (UploadStatus::Created, mine.clone()));
    assert_eq!(
        upload_report(Err(DataBaseErrorType::Existed(theirs.clone())), mine.clone()),
        (UploadStatus::Existed, theirs)
    );
    assert_eq!(
        upload_report(Err(DataBaseErrorType::Failed), mine.clone()),
        (UploadStatus::Failed, mine)
    );
}
