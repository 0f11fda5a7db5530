//! What is published: the upload of a video and its place in the playlist.
use vstd::prelude::*;
use vstd::string::*;

verus! {

/// The playlist that every uploaded video is added to.
pub const PLAYLIST_ID: &'static str = "PLrDx50RI8LwOsr-hccwOgM_BbTUxux5lf";

/// YouTube's category "Autos & Vehicles".
pub const CATEGORY_ID: &'static str = "2";

/// What every title begins with.
pub const TITLE_HEAD: &'static str = "Motovlog - ";

/// The properties of a video to be uploaded.
#[derive(Debug, PartialEq, Eq)]
pub struct VideoUpload {
    pub title: String,
    pub category_id: String,
    pub privacy_status: String,
    pub contains_synthetic_media: bool,
    pub mime_type: String,
}

/// What a [`VideoUpload`] says.
pub struct VideoUploadView {
    pub title: Seq<char>,
    pub category_id: Seq<char>,
    pub privacy_status: Seq<char>,
    pub contains_synthetic_media: bool,
    pub mime_type: Seq<char>,
}

impl View for VideoUpload {
    type V = VideoUploadView;

    open spec fn view(&self) -> VideoUploadView {
        VideoUploadView {
            title: self.title@,
            category_id: self.category_id@,
            privacy_status: self.privacy_status@,
            contains_synthetic_media: self.contains_synthetic_media,
            mime_type: self.mime_type@,
        }
    }
}

/// The title of the video of a date.
pub open spec fn title_of(date: Seq<char>) -> Seq<char> {
    TITLE_HEAD@ + date
}

/// The upload of the video of a date: private, and declared to hold no synthetic media.
pub open spec fn upload_of(date: Seq<char>) -> VideoUploadView {
    VideoUploadView {
        title: title_of(date),
        category_id: CATEGORY_ID@,
        privacy_status: "private"@,
        contains_synthetic_media: false,
        mime_type: "video/mp4"@,
    }
}

/// The title of the video of a date.
pub fn video_title(date: &str) -> (title: String)
    ensures
        title@ == title_of(date@),
{
    TITLE_HEAD.to_owned().concat(date)
}

/// The upload of the video of a date.
pub fn video_upload(date: &str) -> (video: VideoUpload)
    ensures
        video@ == upload_of(date@),
{
    VideoUpload {
        title: video_title(date),
        category_id: CATEGORY_ID.to_owned(),
        privacy_status: "private".to_owned(),
        contains_synthetic_media: false,
        mime_type: "video/mp4".to_owned(),
    }
}

/// A video's place in a playlist.
#[derive(Debug, PartialEq, Eq)]
pub struct PlaylistEntry {
    pub playlist_id: String,
    pub kind: String,
    pub video_id: String,
}

/// What a [`PlaylistEntry`] says.
pub struct PlaylistEntryView {
    pub playlist_id: Seq<char>,
    pub kind: Seq<char>,
    pub video_id: Seq<char>,
}

impl View for PlaylistEntry {
    type V = PlaylistEntryView;

    open spec fn view(&self) -> PlaylistEntryView {
        PlaylistEntryView {
            playlist_id: self.playlist_id@,
            kind: self.kind@,
            video_id: self.video_id@,
        }
    }
}

/// The place of a video in a playlist.
pub open spec fn entry_of(video_id: Seq<char>, playlist_id: Seq<char>) -> PlaylistEntryView {
    PlaylistEntryView { playlist_id, kind: "youtube#video"@, video_id }
}

/// The place of a video in a playlist.
pub fn playlist_entry(video_id: &str, playlist_id: &str) -> (entry: PlaylistEntry)
    ensures
        entry@ == entry_of(video_id@, playlist_id@),
{
    PlaylistEntry {
        playlist_id: playlist_id.to_owned(),
        kind: "youtube#video".to_owned(),
        video_id: video_id.to_owned(),
    }
}

/// Whatever the date, the video is titled `Motovlog - ` and the date, and it is private, in the
/// category for vehicles, of the type MP4, and declared to hold no synthetic media.
pub proof fn videos_are_private_and_titled_by_date(date: Seq<char>)
    ensures
        title_of(date) == "Motovlog - "@ + date,
        upload_of(date).title == "Motovlog - "@ + date,
        upload_of(date).privacy_status == "private"@,
        upload_of(date).category_id == "2"@,
        upload_of(date).contains_synthetic_media == false,
        upload_of(date).mime_type == "video/mp4"@,
{
}

/// Different dates have different titles.
pub proof fn titles_differ(a: Seq<char>, b: Seq<char>)
    requires
        title_of(a) == title_of(b),
    ensures
        a == b,
{
    let head = TITLE_HEAD@.len() as int;
    assert(title_of(a).skip(head) =~= a);
    assert(title_of(b).skip(head) =~= b);
}

/// An entry names the video and the playlist that it was made for.
pub proof fn entries_name_video_and_playlist(video_id: Seq<char>, playlist_id: Seq<char>)
    ensures
        entry_of(video_id, playlist_id).video_id == video_id,
        entry_of(video_id, playlist_id).playlist_id == playlist_id,
        entry_of(video_id, playlist_id).kind == "youtube#video"@,
{
}

/// The views of an upload and of an entry hold all of their fields.
pub proof fn publish_views_are_faithful(video: VideoUpload, entry: PlaylistEntry)
    ensures
        video@.title == video.title@,
        video@.category_id == video.category_id@,
        video@.privacy_status == video.privacy_status@,
        video@.contains_synthetic_media == video.contains_synthetic_media,
        video@.mime_type == video.mime_type@,
        entry@.playlist_id == entry.playlist_id@,
        entry@.kind == entry.kind@,
        entry@.video_id == entry.video_id@,
{
}

} // verus!
