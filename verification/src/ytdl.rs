//! The metadata-tool layer's logic: the domain records, the URLs and
//! argument lists handed to the external tool, and the classification of its
//! outcomes, including the "not found" markers in its diagnostics.
//!
//! The tool itself is a subprocess; the unverified shell spawns it and hands
//! the captured outcome back to these functions as plain values.

use vstd::prelude::*;
use vstd::string::*;
use crate::encoding::encode_str;
use crate::encoding::percent_encoded;
use crate::errors::ToolOutput;
use crate::errors::YtDlError;
use crate::text::contains_str;
use crate::text::contains_substr;
use crate::text::dec_digits;
use crate::text::push_decimal;

verus! {

/// A channel thumbnail; a zero width or height means the dimension is
/// unknown.
#[derive(Debug, Clone, PartialEq)]
pub struct Thumbnail {
    pub url: String,
    pub width: u16,
    pub height: u16,
}

/// A channel as the metadata tool reports it, stamped with the
/// videos-listing URL of whichever convention resolved it.
#[derive(Debug, Clone, PartialEq)]
pub struct Channel {
    pub channel: String,
    pub description: String,
    pub thumbnails: Vec<Thumbnail>,
    pub webpage_url: String,
    pub videos_url: String,
    pub epoch: u64,
}

/// One video of a channel's listing.
#[derive(Debug, Clone, PartialEq)]
pub struct Video {
    pub id: String,
    pub title: String,
    pub description: String,
    /// Upload date in strict `YYYYMMDD` form.
    pub upload_date: String,
    pub uploader: String,
    /// Duration as a display string.
    pub duration: String,
}

/// How running the external tool went, as the shell reports it: the spawn
/// failed because the binary is missing, the spawn failed otherwise, or the
/// process ran to completion.
#[derive(Debug, Clone, PartialEq)]
pub enum RunOutcome {
    /// The binary could not be found.
    SpawnNotFound,
    /// The spawn failed for another reason; carries the diagnostic.
    SpawnFailed(String),
    /// The process ran; carries its exit condition and captured output.
    Finished(ToolOutput),
}

/// What a completed run means: a zero exit status succeeds with the output,
/// a missing binary and a failed spawn are their own failures, and any other
/// exit is a tool failure carrying the output.
pub open spec fn classify_run_spec(outcome: RunOutcome) -> Result<ToolOutput, YtDlError> {
    match outcome {
        RunOutcome::SpawnNotFound => Result::Err(YtDlError::YtDlpNotFound),
        RunOutcome::SpawnFailed(m) => Result::Err(YtDlError::Other(m)),
        RunOutcome::Finished(o) => if o.success {
            Result::Ok(o)
        } else {
            Result::Err(YtDlError::YtDlpOutputError(o))
        },
    }
}

/// Classifies one run of the external tool.
pub fn classify_run(outcome: RunOutcome) -> (r: Result<ToolOutput, YtDlError>)
    ensures
        r == classify_run_spec(outcome),
{
    match outcome {
        RunOutcome::SpawnNotFound => Err(YtDlError::YtDlpNotFound),
        RunOutcome::SpawnFailed(m) => Err(YtDlError::Other(m)),
        RunOutcome::Finished(o) => if o.success {
            Ok(o)
        } else {
            Err(YtDlError::YtDlpOutputError(o))
        },
    }
}

/// The re-classification of a tool failure: it becomes "not found" exactly
/// when the failure is a non-zero exit whose captured standard error
/// contains the operation's marker; every other error passes unchanged.
pub open spec fn map_not_found_spec(e: YtDlError, marker: Seq<char>) -> YtDlError {
    match e {
        YtDlError::YtDlpOutputError(o) => if contains_str(o.stderr@, marker) {
            YtDlError::ItemNotFound
        } else {
            YtDlError::YtDlpOutputError(o)
        },
        _ => e,
    }
}

/// Re-classifies a tool failure against a "not found" marker string.
pub fn map_not_found(e: YtDlError, marker: &str) -> (r: YtDlError)
    ensures
        r == map_not_found_spec(e, marker@),
{
    match e {
        YtDlError::YtDlpOutputError(o) => {
            if contains_substr(o.stderr.as_str(), marker) {
                YtDlError::ItemNotFound
            } else {
                YtDlError::YtDlpOutputError(o)
            }
        },
        other => other,
    }
}

/// The URL of a channel page under the `/c/` convention.
pub open spec fn channel_url_spec(name: Seq<char>, page: Seq<char>) -> Seq<char> {
    "https://www.youtube.com/c/"@ + percent_encoded(name) + "/"@ + percent_encoded(page)
}

/// The URL of a channel page under the `/user/` convention.
pub open spec fn user_url_spec(name: Seq<char>, page: Seq<char>) -> Seq<char> {
    "https://www.youtube.com/user/"@ + percent_encoded(name) + "/"@ + percent_encoded(page)
}

/// Builds a channel page URL under the `/c/` convention.
pub fn get_channel_url(channel_name: &str, page: &str) -> (r: String)
    ensures
        r@ == channel_url_spec(channel_name@, page@),
{
    let mut out = String::from_str("https://www.youtube.com/c/");
    out.append(encode_str(channel_name).as_str());
    out.append("/");
    out.append(encode_str(page).as_str());
    assert(out@ =~= channel_url_spec(channel_name@, page@));
    out
}

/// Builds a channel page URL under the `/user/` convention.
pub fn get_user_url(channel_name: &str, page: &str) -> (r: String)
    ensures
        r@ == user_url_spec(channel_name@, page@),
{
    let mut out = String::from_str("https://www.youtube.com/user/");
    out.append(encode_str(channel_name).as_str());
    out.append("/");
    out.append(encode_str(page).as_str());
    assert(out@ =~= user_url_spec(channel_name@, page@));
    out
}

/// The watch URL of one video.
pub open spec fn watch_url_spec(id: Seq<char>) -> Seq<char> {
    "https://www.youtube.com/watch?v="@ + percent_encoded(id)
}

/// Builds the watch URL of one video.
pub fn get_watch_url(id: &str) -> (r: String)
    ensures
        r@ == watch_url_spec(id@),
{
    let mut out = String::from_str("https://www.youtube.com/watch?v=");
    out.append(encode_str(id).as_str());
    assert(out@ =~= watch_url_spec(id@));
    out
}

/// The channel-lookup "not found" marker in the tool's diagnostics.
pub fn channel_not_found_marker() -> (r: &'static str)
    ensures
        r@ == "HTTPError 404"@,
{
    "HTTPError 404"
}

/// The video-download "not found" marker in the tool's diagnostics.
pub fn video_not_found_marker() -> (r: &'static str)
    ensures
        r@ == "Video unavailable"@,
{
    "Video unavailable"
}

/// What a channel-lookup attempt decided: the tool's JSON output is usable,
/// the channel was not found under this URL convention, or the lookup failed
/// outright.
#[derive(Debug, Clone, PartialEq)]
pub enum ChannelAttempt {
    /// The lookup succeeded; carries the tool's standard output.
    Output(String),
    /// The channel was not found under the tried convention.
    NotFoundHere,
    /// The lookup failed for another reason.
    Failed(YtDlError),
}

/// The decision after one channel-lookup run: classify the run, re-classify
/// a failure against the channel marker, and split "not found" from the
/// other failures.
pub open spec fn channel_attempt_spec(outcome: RunOutcome) -> ChannelAttempt {
    match classify_run_spec(outcome) {
        Result::Ok(o) => ChannelAttempt::Output(o.stdout),
        Result::Err(e) => {
            match map_not_found_spec(e, "HTTPError 404"@) {
                YtDlError::ItemNotFound => ChannelAttempt::NotFoundHere,
                other => ChannelAttempt::Failed(other),
            }
        },
    }
}

/// Classifies one channel-lookup run. On `NotFoundHere` after the first
/// (`/c/`) convention the caller retries under `/user/`; after the second it
/// gives up with a "not found".
pub fn classify_channel_attempt(outcome: RunOutcome) -> (r: ChannelAttempt)
    ensures
        r == channel_attempt_spec(outcome),
{
    match classify_run(outcome) {
        Ok(o) => ChannelAttempt::Output(o.stdout),
        Err(e) => {
            match map_not_found(e, channel_not_found_marker()) {
                YtDlError::ItemNotFound => ChannelAttempt::NotFoundHere,
                other => ChannelAttempt::Failed(other),
            }
        },
    }
}

/// The decision after a video-download run: a zero exit succeeds, a failure
/// is re-classified against the video marker.
pub open spec fn download_result_spec(outcome: RunOutcome) -> Result<ToolOutput, YtDlError> {
    match classify_run_spec(outcome) {
        Result::Ok(o) => Result::Ok(o),
        Result::Err(e) => Result::Err(map_not_found_spec(e, "Video unavailable"@)),
    }
}

/// Classifies one video-download run.
pub fn classify_download(outcome: RunOutcome) -> (r: Result<ToolOutput, YtDlError>)
    ensures
        r == download_result_spec(outcome),
{
    match classify_run(outcome) {
        Ok(o) => Ok(o),
        Err(e) => Err(map_not_found(e, video_not_found_marker())),
    }
}

/// How a non-zero exit is classified, for both operations: standard error
/// containing `HTTPError 404` makes a channel lookup "not found"; standard
/// error containing `Video unavailable` makes a video download "not found";
/// any other non-zero exit stays a tool failure carrying the output.
pub proof fn lemma_not_found_classification(o: ToolOutput)
    requires
        !o.success,
    ensures
        contains_str(o.stderr@, "HTTPError 404"@) ==> channel_attempt_spec(
            RunOutcome::Finished(o),
        ) == ChannelAttempt::NotFoundHere,
        !contains_str(o.stderr@, "HTTPError 404"@) ==> channel_attempt_spec(
            RunOutcome::Finished(o),
        ) == ChannelAttempt::Failed(YtDlError::YtDlpOutputError(o)),
        contains_str(o.stderr@, "Video unavailable"@) ==> download_result_spec(
            RunOutcome::Finished(o),
        ) == Result::<ToolOutput, YtDlError>::Err(YtDlError::ItemNotFound),
        !contains_str(o.stderr@, "Video unavailable"@) ==> download_result_spec(
            RunOutcome::Finished(o),
        ) == Result::<ToolOutput, YtDlError>::Err(YtDlError::YtDlpOutputError(o)),
{
}

/// Stamps a freshly parsed channel with the videos-listing URL of the
/// convention that resolved it: `/user/` if the first, `/c/`, attempt said
/// "not found", else `/c/`.
pub fn stamp_videos_url(channel: Channel, channel_name: &str, used_user_url: bool) -> (r: Channel)
    ensures
        r.channel == channel.channel,
        r.description == channel.description,
        r.thumbnails == channel.thumbnails,
        r.webpage_url == channel.webpage_url,
        r.epoch == channel.epoch,
        used_user_url ==> r.videos_url@ == user_url_spec(channel_name@, "videos"@),
        !used_user_url ==> r.videos_url@ == channel_url_spec(channel_name@, "videos"@),
{
    let videos_url = if used_user_url {
        get_user_url(channel_name, "videos")
    } else {
        get_channel_url(channel_name, "videos")
    };
    Channel {
        channel: channel.channel,
        description: channel.description,
        thumbnails: channel.thumbnails,
        webpage_url: channel.webpage_url,
        videos_url,
        epoch: channel.epoch,
    }
}

/// The serialized field names of a video record, in the order the listing
/// template requests them.
pub open spec fn video_field_names_spec() -> Seq<Seq<char>> {
    seq!["id"@, "title"@, "description"@, "upload_date"@, "uploader"@, "duration_string"@]
}

/// The field names of a video record as the tool serializes them.
pub fn video_field_names() -> (r: Vec<&'static str>)
    ensures
        r@.len() == video_field_names_spec().len(),
        forall|i: int| 0 <= i < r@.len() ==> r@[i]@ == video_field_names_spec()[i],
{
    let mut v: Vec<&'static str> = Vec::new();
    v.push("id");
    v.push("title");
    v.push("description");
    v.push("upload_date");
    v.push("uploader");
    v.push("duration_string");
    proof {
        assert forall|i: int| 0 <= i < v@.len() implies v@[i]@ == video_field_names_spec()[i] by {
            assert(video_field_names_spec()[i] == seq![
                "id"@,
                "title"@,
                "description"@,
                "upload_date"@,
                "uploader"@,
                "duration_string"@,
            ][i]);
        }
    }
    v
}

/// One field request of the listing template: `"name":%(name)j`.
pub open spec fn field_request_spec(name: Seq<char>) -> Seq<char> {
    "\""@ + name + "\":%("@ + name + ")j"@
}

/// The comma-joined field requests of a name list.
pub open spec fn field_requests_spec(names: Seq<Seq<char>>) -> Seq<char>
    decreases names.len(),
{
    if names.len() == 0 {
        Seq::empty()
    } else if names.len() == 1 {
        field_request_spec(names[0])
    } else {
        field_requests_spec(names.drop_last()) + ","@ + field_request_spec(names.last())
    }
}

/// The output template handed to the tool for video listings: one JSON
/// object per line whose fields are exactly a video record's.
pub open spec fn video_template_spec() -> Seq<char> {
    "{"@ + field_requests_spec(video_field_names_spec()) + "}"@
}

fn append_field_request(out: &mut String, name: &str)
    ensures
        final(out)@ == old(out)@ + field_request_spec(name@),
{
    out.append("\"");
    out.append(name);
    out.append("\":%(");
    out.append(name);
    out.append(")j");
    assert(out@ =~= old(out)@ + field_request_spec(name@));
}

/// Builds the listing output template from the video record's field names.
pub fn video_field_template() -> (r: String)
    ensures
        r@ == video_template_spec(),
{
    let names = video_field_names();
    let mut out = String::from_str("{");
    let mut i: usize = 0;
    while i < names.len()
        invariant
            0 <= i <= names@.len(),
            names@.len() == video_field_names_spec().len(),
            forall|k: int| 0 <= k < names@.len() ==> names@[k]@ == video_field_names_spec()[k],
            out@ == "{"@ + field_requests_spec(video_field_names_spec().subrange(0, i as int)),
        decreases names@.len() - i,
    {
        if i > 0 {
            out.append(",");
        }
        append_field_request(&mut out, names[i]);
        proof {
            let pfx = video_field_names_spec().subrange(0, i + 1);
            assert(pfx.drop_last() =~= video_field_names_spec().subrange(0, i as int));
            assert(pfx.last() == video_field_names_spec()[i as int]);
            if i == 0 {
                assert(out@ =~= "{"@ + field_requests_spec(pfx));
            } else {
                assert(out@ =~= "{"@ + field_requests_spec(pfx));
            }
        }
        i += 1;
    }
    out.append("}");
    proof {
        assert(video_field_names_spec().subrange(0, video_field_names_spec().len() as int)
            =~= video_field_names_spec());
        assert(out@ =~= video_template_spec());
    }
    out
}

/// The cache key under which a channel's video listing is stored.
pub fn playlist_cache_key(channel_name: &str) -> (r: Vec<String>)
    ensures
        r@.len() == 2,
        r@[0]@ == "playlist"@,
        r@[1]@ == channel_name@,
{
    let mut key: Vec<String> = Vec::new();
    key.push(String::from_str("playlist"));
    key.push(channel_name.to_owned());
    key
}

/// The video-listing limit when the caller gives none.
pub fn effective_limit(limit: Option<u64>) -> (r: u64)
    ensures
        limit matches Some(l) ==> r == l,
        limit is None ==> r == 5,
{
    match limit {
        Some(l) => l,
        None => 5,
    }
}

/// The argument list of a video-listing run: sort by extension, print one
/// templated JSON object per video, stop after `limit` entries of the
/// channel's videos page.
pub fn videos_args(videos_url: &str, limit: u64) -> (r: Vec<String>)
    ensures
        r@.len() == 7,
        r@[0]@ == "-S"@,
        r@[1]@ == "ext"@,
        r@[2]@ == "--print"@,
        r@[3]@ == video_template_spec(),
        r@[4]@ == "--playlist-end"@,
        r@[5]@ == dec_digits(limit as nat),
        r@[6]@ == videos_url@,
{
    let mut args: Vec<String> = Vec::new();
    args.push(String::from_str("-S"));
    args.push(String::from_str("ext"));
    args.push(String::from_str("--print"));
    args.push(video_field_template());
    args.push(String::from_str("--playlist-end"));
    let mut limit_str = String::new();
    push_decimal(&mut limit_str, limit);
    assert(limit_str@ =~= dec_digits(limit as nat));
    args.push(limit_str);
    args.push(videos_url.to_owned());
    args
}

/// The argument list of a video-download run: strip sponsor segments,
/// prefer a widely compatible container capped at 720 lines, write to the
/// given path, fetch the video's watch URL.
pub fn download_args(id: &str, output_path: &str) -> (r: Vec<String>)
    ensures
        r@.len() == 7,
        r@[0]@ == "--sponsorblock-remove"@,
        r@[1]@ == "all"@,
        r@[2]@ == "-S"@,
        r@[3]@ == "ext,height:720"@,
        r@[4]@ == "-o"@,
        r@[5]@ == output_path@,
        r@[6]@ == watch_url_spec(id@),
{
    let mut args: Vec<String> = Vec::new();
    args.push(String::from_str("--sponsorblock-remove"));
    args.push(String::from_str("all"));
    args.push(String::from_str("-S"));
    args.push(String::from_str("ext,height:720"));
    args.push(String::from_str("-o"));
    args.push(output_path.to_owned());
    args.push(get_watch_url(id));
    args
}

} // verus!
