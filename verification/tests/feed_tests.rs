use podcast_proxy::dates::Date;
use podcast_proxy::dates::day_number;
use podcast_proxy::errors::PodcastError;
use podcast_proxy::feed::build_feed;
use podcast_proxy::feed::select_thumbnail;
use podcast_proxy::feed::PLACEHOLDER_ENCLOSURE_LENGTH;
use podcast_proxy::ytdl::Channel;
use podcast_proxy::ytdl::Thumbnail;
use podcast_proxy::ytdl::Video;

fn thumb(width: u16, height: u16) -> Thumbnail {
    Thumbnail { url: format!("http://t/{}x{}", width, height), width, height }
}

fn channel(thumbs: Vec<Thumbnail>) -> Channel {
    Channel {
        channel: "Chan".to_string(),
        description: "About".to_string(),
        thumbnails: thumbs,
        webpage_url: "https://www.youtube.com/c/chan".to_string(),
        videos_url: "https://www.youtube.com/c/chan/videos".to_string(),
        epoch: 0,
    }
}

fn video(id: &str, upload_date: &str) -> Video {
    Video {
        id: id.to_string(),
        title: format!("title {}", id),
        description: format!("desc {}", id),
        upload_date: upload_date.to_string(),
        uploader: "Chan".to_string(),
        duration: "10:00".to_string(),
    }
}

#[test]
fn squarest_thumbnail_wins() {
    let thumbs = vec![thumb(100, 50), thumb(40, 40), thumb(10, 100)];
    assert_eq!(select_thumbnail(&thumbs), Some(1));
}

#[test]
fn first_of_equally_square_thumbnails_wins() {
    let thumbs = vec![thumb(40, 40), thumb(50, 50)];
    assert_eq!(select_thumbnail(&thumbs), Some(0));
}

#[test]
fn no_usable_thumbnail_selects_none() {
    assert_eq!(select_thumbnail(&vec![]), None);
    assert_eq!(select_thumbnail(&vec![thumb(0, 10), thumb(10, 0)]), None);
}

#[test]
fn grace_period_filters_fresh_videos() {
    // build on 2024-03-15; videos 10, 5, 2 and 0 days old, newest first
    let now = day_number(&Date { year: 2024, month: 3, day: 15 });
    let videos = vec![
        video("v0", "20240315"),
        video("v2", "20240313"),
        video("v5", "20240310"),
        video("v10", "20240305"),
    ];
    let feed = build_feed(&channel(vec![]), &videos, "http://base/media/", 3, now).unwrap();
    assert_eq!(feed.items.len(), 2);
    assert_eq!(feed.items[0].guid, "v5");
    assert_eq!(feed.items[1].guid, "v10");
    // the feed's publication date is the 10-day-old video's date
    assert_eq!(feed.pub_date, "Tue, 05 Mar 2024 00:00:00 +0000");
}

#[test]
fn video_exactly_at_the_delay_is_included() {
    let now = day_number(&Date { year: 2024, month: 3, day: 15 });
    let videos = vec![video("v3", "20240312")];
    let feed = build_feed(&channel(vec![]), &videos, "http://base/media/", 3, now).unwrap();
    assert_eq!(feed.items.len(), 1);
}

#[test]
fn item_fields_come_from_the_video() {
    let now = day_number(&Date { year: 2024, month: 3, day: 15 });
    let videos = vec![video("abc", "20240301")];
    let feed = build_feed(&channel(vec![]), &videos, "http://base/media/", 0, now).unwrap();
    let item = &feed.items[0];
    assert_eq!(item.title, "title abc");
    assert_eq!(item.description, "desc abc");
    assert_eq!(item.enclosure_url, "http://base/media/abc");
    assert_eq!(item.enclosure_length, PLACEHOLDER_ENCLOSURE_LENGTH);
    assert_eq!(item.enclosure_length, 1_073_741_824);
    assert_eq!(item.enclosure_mime, "video/mp4");
    assert_eq!(item.guid, "abc");
    assert_eq!(item.pub_date, "Fri, 01 Mar 2024 00:00:00 +0000");
    assert_eq!(item.author, "Chan");
    assert_eq!(item.duration, "10:00");
    assert_eq!(item.subtitle, "desc abc");
    assert_eq!(item.summary, "desc abc");
}

#[test]
fn channel_fields_and_image() {
    let now = day_number(&Date { year: 2024, month: 3, day: 15 });
    let feed = build_feed(
        &channel(vec![thumb(100, 50), thumb(40, 40)]),
        &vec![],
        "http://base/media/",
        0,
        now,
    )
    .unwrap();
    assert_eq!(feed.title, "Chan");
    assert_eq!(feed.link, "https://www.youtube.com/c/chan");
    assert_eq!(feed.description, "About");
    assert_eq!(feed.author, "Chan");
    assert_eq!(feed.block, "Yes");
    assert_eq!(feed.subtitle, "About");
    let image = feed.image.unwrap();
    assert_eq!(image.title, "Chan");
    assert_eq!(image.url, "http://t/40x40");
    assert_eq!(image.link, "http://t/40x40");
    assert_eq!(image.width, 40);
    assert_eq!(image.height, 40);
}

#[test]
fn empty_listing_builds_an_empty_feed_dated_today() {
    let now = day_number(&Date { year: 2024, month: 3, day: 15 });
    let feed = build_feed(&channel(vec![]), &vec![], "http://base/media/", 3, now).unwrap();
    assert_eq!(feed.items.len(), 0);
    assert!(feed.image.is_none());
    assert_eq!(feed.pub_date, "Fri, 15 Mar 2024 00:00:00 +0000");
}

#[test]
fn all_videos_excluded_still_builds() {
    let now = day_number(&Date { year: 2024, month: 3, day: 15 });
    let videos = vec![video("v0", "20240315")];
    let feed = build_feed(&channel(vec![]), &videos, "http://base/media/", 3, now).unwrap();
    assert_eq!(feed.items.len(), 0);
    assert_eq!(feed.pub_date, "Fri, 15 Mar 2024 00:00:00 +0000");
}

#[test]
fn malformed_date_fails_the_whole_build() {
    let now = day_number(&Date { year: 2024, month: 3, day: 15 });
    let videos = vec![video("ok", "20240301"), video("bad", "2024-03-01")];
    let r = build_feed(&channel(vec![]), &videos, "http://base/media/", 0, now);
    assert_eq!(r, Err(PodcastError::Other("bad upload date".to_string())));
}
