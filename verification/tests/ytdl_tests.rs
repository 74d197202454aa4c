use podcast_proxy::errors::ToolOutput;
use podcast_proxy::errors::YtDlError;
use podcast_proxy::errors::podcast_error_of;
use podcast_proxy::errors::PodcastError;
use podcast_proxy::ytdl::ChannelAttempt;
use podcast_proxy::ytdl::RunOutcome;
use podcast_proxy::ytdl::classify_channel_attempt;
use podcast_proxy::ytdl::classify_download;
use podcast_proxy::ytdl::classify_run;
use podcast_proxy::ytdl::download_args;
use podcast_proxy::ytdl::effective_limit;
use podcast_proxy::ytdl::get_channel_url;
use podcast_proxy::ytdl::get_user_url;
use podcast_proxy::ytdl::get_watch_url;
use podcast_proxy::ytdl::map_not_found;
use podcast_proxy::ytdl::playlist_cache_key;
use podcast_proxy::ytdl::stamp_videos_url;
use podcast_proxy::ytdl::video_field_template;
use podcast_proxy::ytdl::videos_args;
use podcast_proxy::ytdl::Channel;

fn output(success: bool, stderr: &str) -> ToolOutput {
    ToolOutput {
        success,
        code: if success { Some(0) } else { Some(1) },
        stdout: String::new(),
        stderr: stderr.to_string(),
    }
}

#[test]
fn urls_are_percent_encoded() {
    assert_eq!(
        get_channel_url("a channel", "about"),
        "https://www.youtube.com/c/a%20channel/about"
    );
    assert_eq!(
        get_user_url("techmoan", "videos"),
        "https://www.youtube.com/user/techmoan/videos"
    );
    assert_eq!(
        get_watch_url("a/b+c"),
        "https://www.youtube.com/watch?v=a%2Fb%2Bc"
    );
}

#[test]
fn run_classification() {
    assert_eq!(
        classify_run(RunOutcome::SpawnNotFound),
        Err(YtDlError::YtDlpNotFound)
    );
    assert_eq!(
        classify_run(RunOutcome::SpawnFailed("denied".to_string())),
        Err(YtDlError::Other("denied".to_string()))
    );
    let ok = output(true, "");
    assert_eq!(classify_run(RunOutcome::Finished(ok.clone())), Ok(ok));
    let bad = output(false, "boom");
    assert_eq!(
        classify_run(RunOutcome::Finished(bad.clone())),
        Err(YtDlError::YtDlpOutputError(bad))
    );
}

#[test]
fn channel_lookup_not_found_marker() {
    let nf = output(false, "ERROR: HTTPError 404: Not Found");
    assert_eq!(
        classify_channel_attempt(RunOutcome::Finished(nf)),
        ChannelAttempt::NotFoundHere
    );
    let other = output(false, "ERROR: connection reset");
    assert_eq!(
        classify_channel_attempt(RunOutcome::Finished(other.clone())),
        ChannelAttempt::Failed(YtDlError::YtDlpOutputError(other))
    );
    let ok = ToolOutput {
        success: true,
        code: Some(0),
        stdout: "{}".to_string(),
        stderr: String::new(),
    };
    assert_eq!(
        classify_channel_attempt(RunOutcome::Finished(ok)),
        ChannelAttempt::Output("{}".to_string())
    );
}

#[test]
fn download_not_found_marker() {
    let nf = output(false, "ERROR: Video unavailable");
    assert_eq!(
        classify_download(RunOutcome::Finished(nf)),
        Err(YtDlError::ItemNotFound)
    );
    let other = output(false, "ERROR: HTTPError 404: Not Found");
    assert_eq!(
        classify_download(RunOutcome::Finished(other.clone())),
        Err(YtDlError::YtDlpOutputError(other))
    );
}

#[test]
fn map_not_found_leaves_other_errors_alone() {
    assert_eq!(
        map_not_found(YtDlError::YtDlpNotFound, "HTTPError 404"),
        YtDlError::YtDlpNotFound
    );
    let e = YtDlError::Other("x".to_string());
    assert_eq!(map_not_found(e.clone(), "HTTPError 404"), e);
}

#[test]
fn errors_map_to_request_level() {
    assert_eq!(podcast_error_of(YtDlError::ItemNotFound), PodcastError::NotFound);
    assert_eq!(
        podcast_error_of(YtDlError::YtDlpNotFound),
        PodcastError::YoutubeError(YtDlError::YtDlpNotFound)
    );
}

#[test]
fn listing_template_requests_the_video_fields() {
    assert_eq!(
        video_field_template(),
        "{\"id\":%(id)j,\"title\":%(title)j,\"description\":%(description)j,\
         \"upload_date\":%(upload_date)j,\"uploader\":%(uploader)j,\
         \"duration_string\":%(duration_string)j}"
    );
}

#[test]
fn listing_args() {
    let args = videos_args("https://example.invalid/videos", effective_limit(None));
    assert_eq!(args.len(), 7);
    assert_eq!(args[0], "-S");
    assert_eq!(args[1], "ext");
    assert_eq!(args[2], "--print");
    assert_eq!(args[3], video_field_template());
    assert_eq!(args[4], "--playlist-end");
    assert_eq!(args[5], "5");
    assert_eq!(args[6], "https://example.invalid/videos");
    assert_eq!(effective_limit(Some(12)), 12);
}

#[test]
fn download_args_fetch_the_watch_url() {
    let args = download_args("vid1", "/tmp/out.mp4");
    assert_eq!(
        args,
        vec![
            "--sponsorblock-remove".to_string(),
            "all".to_string(),
            "-S".to_string(),
            "ext,height:720".to_string(),
            "-o".to_string(),
            "/tmp/out.mp4".to_string(),
            "https://www.youtube.com/watch?v=vid1".to_string(),
        ]
    );
}

#[test]
fn videos_url_follows_the_convention_that_resolved() {
    let channel = Channel {
        channel: "Name".to_string(),
        description: "d".to_string(),
        thumbnails: vec![],
        webpage_url: "w".to_string(),
        videos_url: String::new(),
        epoch: 7,
    };
    let c = stamp_videos_url(channel.clone(), "name", false);
    assert_eq!(c.videos_url, "https://www.youtube.com/c/name/videos");
    assert_eq!(c.channel, "Name");
    assert_eq!(c.epoch, 7);
    let u = stamp_videos_url(channel, "name", true);
    assert_eq!(u.videos_url, "https://www.youtube.com/user/name/videos");
}

#[test]
fn playlist_key_shape() {
    let k = playlist_cache_key("some channel");
    assert_eq!(k, vec!["playlist".to_string(), "some channel".to_string()]);
}
