//! Assembly of the podcast feed from a channel and its video listing: the
//! grace-period filter on upload dates, the squarest-thumbnail choice, and
//! the field-by-field content of the resulting document.
//!
//! The document built here is plain data; the shell serializes it as RSS
//! with the iTunes extension.

use vstd::prelude::*;
use vstd::string::*;
use crate::dates::civil_of_day_number;
use crate::dates::date_day_number;
use crate::dates::day_number;
use crate::dates::parse_date_spec;
use crate::dates::parse_upload_date;
use crate::dates::rfc2822_spec;
use crate::dates::rfc2822_utc_midnight;
use crate::dates::valid_date;
use crate::dates::lemma_days_before_year_bounds;
use crate::dates::lemma_days_before_month_bounds;
use crate::errors::PodcastError;
use crate::ytdl::Channel;
use crate::ytdl::Thumbnail;
use crate::ytdl::Video;

verus! {

/// The fixed placeholder byte length of an enclosure: the true size is
/// unknown without downloading the media.
pub const PLACEHOLDER_ENCLOSURE_LENGTH: u64 = 1073741824;

/// One entry of the feed, corresponding to one video.
#[derive(Debug, Clone, PartialEq)]
pub struct FeedItem {
    pub title: String,
    pub description: String,
    pub enclosure_url: String,
    pub enclosure_length: u64,
    pub enclosure_mime: String,
    pub guid: String,
    pub pub_date: String,
    pub author: String,
    pub duration: String,
    pub subtitle: String,
    pub summary: String,
}

/// The feed's channel image, when a usable thumbnail exists.
#[derive(Debug, Clone, PartialEq)]
pub struct FeedImage {
    pub title: String,
    pub url: String,
    pub link: String,
    pub width: u16,
    pub height: u16,
}

/// The feed document: channel-level fields, an optional image, and the
/// items of the videos that survive the grace period.
#[derive(Debug, Clone, PartialEq)]
pub struct Feed {
    pub title: String,
    pub link: String,
    pub description: String,
    pub author: String,
    pub block: String,
    pub subtitle: String,
    pub image: Option<FeedImage>,
    pub pub_date: String,
    pub items: Vec<FeedItem>,
}

/// A video's upload date parses.
pub open spec fn video_has_date(v: Video) -> bool {
    parse_date_spec(v.upload_date@) is Some
}

/// The day number of a video's upload date (meaningful when it parses).
pub open spec fn video_day(v: Video) -> int {
    match parse_date_spec(v.upload_date@) {
        Option::Some(p) => date_day_number(p.0, p.1, p.2),
        Option::None => 0,
    }
}

/// The RFC 2822 rendering of a video's upload date at UTC midnight.
pub open spec fn video_rfc2822(v: Video) -> Seq<char> {
    match parse_date_spec(v.upload_date@) {
        Option::Some(p) => rfc2822_spec(p.0, p.1, p.2),
        Option::None => Seq::empty(),
    }
}

/// The grace period: a video appears only once it has been out for at least
/// `delay` days.
pub open spec fn video_included(v: Video, now_day: int, delay: int) -> bool {
    now_day - video_day(v) >= delay
}

/// The videos that survive the grace period, in their listing order.
pub open spec fn included_videos(vs: Seq<Video>, now_day: int, delay: int) -> Seq<Video>
    decreases vs.len(),
{
    if vs.len() == 0 {
        Seq::empty()
    } else {
        included_videos(vs.drop_last(), now_day, delay) + if video_included(
            vs.last(),
            now_day,
            delay,
        ) {
            seq![vs.last()]
        } else {
            Seq::empty()
        }
    }
}

/// A thumbnail with both dimensions known and nonzero.
pub open spec fn thumb_usable(t: Thumbnail) -> bool {
    t.width > 0 && t.height > 0
}

/// Distance of a thumbnail's aspect ratio from square, in percent:
/// `|100 - 100 * width / height|`.
pub open spec fn squareness(t: Thumbnail) -> int {
    let q = (100 * (t.width as int)) / (t.height as int);
    if q >= 100 {
        q - 100
    } else {
        100 - q
    }
}

/// Selects the first usable thumbnail whose aspect ratio is closest to
/// square, or nothing when no thumbnail has both dimensions.
pub fn select_thumbnail(thumbs: &Vec<Thumbnail>) -> (r: Option<usize>)
    ensures
        r is None <==> (forall|i: int|
            0 <= i < thumbs@.len() ==> !thumb_usable(#[trigger] thumbs@[i])),
        r matches Some(ti) ==> 0 <= ti < thumbs@.len() && thumb_usable(thumbs@[ti as int]) && (forall|
            j: int,
        |
            0 <= j < thumbs@.len() && thumb_usable(#[trigger] thumbs@[j]) ==> squareness(
                thumbs@[ti as int],
            ) <= squareness(thumbs@[j])) && (forall|j: int|
            0 <= j < ti && thumb_usable(#[trigger] thumbs@[j]) ==> squareness(thumbs@[j])
                > squareness(thumbs@[ti as int])),
{
    let mut best: Option<usize> = None;
    let mut best_key: u32 = 0;
    let mut i: usize = 0;
    while i < thumbs.len()
        invariant
            0 <= i <= thumbs@.len(),
            best is None ==> (forall|k: int|
                0 <= k < i ==> !thumb_usable(#[trigger] thumbs@[k])),
            best matches Some(b) ==> 0 <= b < i && thumb_usable(thumbs@[b as int]) && best_key
                == squareness(thumbs@[b as int]) && (forall|j: int|
                0 <= j < i && thumb_usable(#[trigger] thumbs@[j]) ==> squareness(thumbs@[b as int])
                    <= squareness(thumbs@[j])) && (forall|j: int|
                0 <= j < b && thumb_usable(#[trigger] thumbs@[j]) ==> squareness(thumbs@[j])
                    > squareness(thumbs@[b as int])),
        decreases thumbs@.len() - i,
    {
        let t = &thumbs[i];
        if t.width > 0 && t.height > 0 {
            let q = (100 * t.width as u32) / t.height as u32;
            let key = if q >= 100 {
                q - 100
            } else {
                100 - q
            };
            assert(key == squareness(thumbs@[i as int]));
            match best {
                None => {
                    best = Some(i);
                    best_key = key;
                },
                Some(_) => {
                    if key < best_key {
                        best = Some(i);
                        best_key = key;
                    }
                },
            }
        }
        i += 1;
    }
    best
}

/// What every field of the item for one surviving video holds.
pub open spec fn item_matches(it: FeedItem, v: Video, base: Seq<char>) -> bool {
    &&& it.title@ == v.title@
    &&& it.description@ == v.description@
    &&& it.enclosure_url@ == base + v.id@
    &&& it.enclosure_length == PLACEHOLDER_ENCLOSURE_LENGTH
    &&& it.enclosure_mime@ == "video/mp4"@
    &&& it.guid@ == v.id@
    &&& it.pub_date@ == video_rfc2822(v)
    &&& it.author@ == v.uploader@
    &&& it.duration@ == v.duration@
    &&& it.subtitle@ == v.description@
    &&& it.summary@ == v.description@
}

/// What the whole built feed holds, relative to the channel, the listing,
/// the media base URL, the grace period and the day of the build.
pub open spec fn feed_matches(
    f: Feed,
    channel: Channel,
    videos: Seq<Video>,
    base: Seq<char>,
    delay: int,
    now_day: int,
) -> bool {
    let inc = included_videos(videos, now_day, delay);
    let thumbs = channel.thumbnails@;
    &&& f.title@ == channel.channel@
    &&& f.link@ == channel.webpage_url@
    &&& f.description@ == channel.description@
    &&& f.author@ == channel.channel@
    &&& f.block@ == "Yes"@
    &&& f.subtitle@ == channel.description@
    &&& f.items@.len() == inc.len()
    &&& (forall|k: int| 0 <= k < inc.len() ==> item_matches(#[trigger] f.items@[k], inc[k], base))
    &&& (f.image is None <==> (forall|i: int|
        0 <= i < thumbs.len() ==> !thumb_usable(#[trigger] thumbs[i])))
    &&& (f.image matches Some(im) ==> exists|ti: int|
        0 <= ti < thumbs.len() && #[trigger] thumb_usable(thumbs[ti]) && (forall|j: int|
            0 <= j < thumbs.len() && thumb_usable(#[trigger] thumbs[j]) ==> squareness(thumbs[ti])
                <= squareness(thumbs[j])) && (forall|j: int|
            0 <= j < ti && thumb_usable(#[trigger] thumbs[j]) ==> squareness(thumbs[j])
                > squareness(thumbs[ti])) && im.title@ == channel.channel@ && im.url@
            == thumbs[ti].url@ && im.link@ == thumbs[ti].url@ && im.width == thumbs[ti].width
            && im.height == thumbs[ti].height)
    &&& (inc.len() == 0 ==> exists|p: (int, int, int)|
        valid_date(p.0, p.1, p.2) && date_day_number(p.0, p.1, p.2) == now_day && f.pub_date@
            == #[trigger] rfc2822_spec(p.0, p.1, p.2))
    &&& (inc.len() > 0 ==> exists|k: int|
        0 <= k < inc.len() && (forall|j: int|
            0 <= j < inc.len() ==> video_day(#[trigger] inc[j]) >= video_day(inc[k]))
            && f.pub_date@ == video_rfc2822(#[trigger] inc[k]))
}

proof fn lemma_day_number_range(y: int, m: int, d: int)
    requires
        valid_date(y, m, d),
    ensures
        -721100 < date_day_number(y, m, d) < 2940000,
{
    lemma_days_before_year_bounds(y);
    lemma_days_before_month_bounds(y, m);
}

/// Builds the feed for a channel from its video listing: every upload date
/// must parse as a strict `YYYYMMDD` calendar date, or the whole build
/// fails; videos younger than `delay_days` days are left out; the feed's
/// publication date is the oldest surviving upload date, or the day of the
/// build when nothing survives.
pub fn build_feed(
    channel: &Channel,
    videos: &Vec<Video>,
    media_base_url: &str,
    delay_days: u32,
    now_day: i64,
) -> (r: Result<Feed, PodcastError>)
    requires
        0 <= now_day <= date_day_number(9999, 12, 31),
    ensures
        r is Ok <==> (forall|i: int|
            0 <= i < videos@.len() ==> video_has_date(#[trigger] videos@[i])),
        r matches Err(e) ==> e matches PodcastError::Other(m) && m@ == "bad upload date"@,
        r matches Ok(f) ==> feed_matches(
            f,
            *channel,
            videos@,
            media_base_url@,
            delay_days as int,
            now_day as int,
        ),
{
    let ghost all = videos@;
    let n = videos.len();
    let mut items: Vec<FeedItem> = Vec::new();
    let mut oldest: Option<crate::dates::Date> = None;
    let mut oldest_day: i64 = 0;
    let mut i: usize = 0;
    while i < n
        invariant
            0 <= i <= n,
            n == all.len(),
            videos@ == all,
            0 <= now_day <= date_day_number(9999, 12, 31),
            forall|k: int| 0 <= k < i ==> video_has_date(#[trigger] all[k]),
            items@.len() == included_videos(all.subrange(0, i as int), now_day as int, delay_days as int).len(),
            forall|k: int|
                0 <= k < items@.len() ==> item_matches(
                    #[trigger] items@[k],
                    included_videos(all.subrange(0, i as int), now_day as int, delay_days as int)[k],
                    media_base_url@,
                ),
            oldest is None <==> included_videos(
                all.subrange(0, i as int),
                now_day as int,
                delay_days as int,
            ).len() == 0,
            oldest matches Some(od) ==> {
                let inc = included_videos(all.subrange(0, i as int), now_day as int, delay_days as int);
                &&& valid_date(od.year as int, od.month as int, od.day as int)
                &&& oldest_day == date_day_number(od.year as int, od.month as int, od.day as int)
                &&& (exists|k: int|
                    0 <= k < inc.len() && parse_date_spec(#[trigger] inc[k].upload_date@)
                        == Option::Some((od.year as int, od.month as int, od.day as int)))
                &&& (forall|j: int|
                    0 <= j < inc.len() ==> video_day(#[trigger] inc[j]) >= oldest_day)
            },
        decreases n - i,
    {
        let ghost prefix = all.subrange(0, i as int);
        let ghost prefix1 = all.subrange(0, i + 1);
        proof {
            assert(prefix1.drop_last() =~= prefix);
            assert(prefix1.last() == all[i as int]);
        }
        let v = &videos[i];
        let date = match parse_upload_date(v.upload_date.as_str()) {
            Some(d) => d,
            None => {
                return Err(PodcastError::Other(String::from_str("bad upload date")));
            },
        };
        let vd = day_number(&date);
        proof {
            lemma_day_number_range(date.year as int, date.month as int, date.day as int);
            assert(video_day(all[i as int]) == vd);
            lemma_days_before_year_bounds(9999);
            lemma_days_before_month_bounds(9999, 12);
        }
        if now_day - vd >= delay_days as i64 {
            assert(video_included(all[i as int], now_day as int, delay_days as int));
            let mut enclosure_url = media_base_url.to_owned();
            enclosure_url.append(v.id.as_str());
            let item = FeedItem {
                title: v.title.clone(),
                description: v.description.clone(),
                enclosure_url,
                enclosure_length: PLACEHOLDER_ENCLOSURE_LENGTH,
                enclosure_mime: String::from_str("video/mp4"),
                guid: v.id.clone(),
                pub_date: rfc2822_utc_midnight(&date),
                author: v.uploader.clone(),
                duration: v.duration.clone(),
                subtitle: v.description.clone(),
                summary: v.description.clone(),
            };
            proof {
                assert(item.pub_date@ == video_rfc2822(all[i as int]));
                assert(item_matches(item, all[i as int], media_base_url@));
            }
            items.push(item);
            let replace = match &oldest {
                None => true,
                Some(_) => vd < oldest_day,
            };
            if replace {
                oldest = Some(date);
                oldest_day = vd;
            }
            proof {
                let inc1 = included_videos(prefix1, now_day as int, delay_days as int);
                let inc0 = included_videos(prefix, now_day as int, delay_days as int);
                assert(inc1 =~= inc0 + seq![all[i as int]]);
                assert(forall|k: int| 0 <= k < inc0.len() ==> inc1[k] == inc0[k]);
                assert(inc1[inc1.len() - 1] == all[i as int]);
            }
        } else {
            proof {
                let inc1 = included_videos(prefix1, now_day as int, delay_days as int);
                let inc0 = included_videos(prefix, now_day as int, delay_days as int);
                assert(inc1 =~= inc0);
            }
        }
        i += 1;
    }
    proof {
        assert(all.subrange(0, n as int) =~= all);
    }
    let pub_date = match &oldest {
        Some(od) => rfc2822_utc_midnight(od),
        None => {
            let today = civil_of_day_number(now_day);
            let rendered = rfc2822_utc_midnight(&today);
            proof {
                let p = (today.year as int, today.month as int, today.day as int);
                assert(valid_date(p.0, p.1, p.2) && date_day_number(p.0, p.1, p.2)
                    == now_day as int && rendered@ == rfc2822_spec(p.0, p.1, p.2));
            }
            rendered
        },
    };
    let image = match select_thumbnail(&channel.thumbnails) {
        Some(ti) => {
            let t = &channel.thumbnails[ti];
            Some(
                FeedImage {
                    title: channel.channel.clone(),
                    url: t.url.clone(),
                    link: t.url.clone(),
                    width: t.width,
                    height: t.height,
                },
            )
        },
        None => None,
    };
    let f = Feed {
        title: channel.channel.clone(),
        link: channel.webpage_url.clone(),
        description: channel.description.clone(),
        author: channel.channel.clone(),
        block: String::from_str("Yes"),
        subtitle: channel.description.clone(),
        image,
        pub_date,
        items,
    };
    proof {
        let inc = included_videos(all, now_day as int, delay_days as int);
        if inc.len() > 0 {
            let od = oldest.unwrap();
            let k = choose|k: int|
                0 <= k < inc.len() && parse_date_spec(#[trigger] inc[k].upload_date@)
                    == Option::Some((od.year as int, od.month as int, od.day as int));
            assert(f.pub_date@ == video_rfc2822(inc[k]));
            assert(forall|j: int| 0 <= j < inc.len() ==> video_day(#[trigger] inc[j]) >= video_day(inc[k]));
        }
    }
    Ok(f)
}

} // verus!
