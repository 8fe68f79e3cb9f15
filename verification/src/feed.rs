//! The feed data model and serializer: episode and channel records whose
//! rendering into the RSS document is specified character by character.
//! Titles and descriptions are escaped on the way out; the other inserted
//! values are library-derived (URLs, sizes, RFC-822 dates) or already
//! quote-stripped text.

use vstd::prelude::*;

use crate::custom_date::{current_timestamp, format_rfc822, spec_rfc822, FMT_TS_MAX, FMT_TS_MIN};
use crate::text::{dec_of, push_u64};
use crate::xml::{escape_text, escape_xml};

verus! {

/// One feed episode, with field text already normalized.
pub struct Episode {
    pub id: u64,
    pub brand_id: u64,
    pub title: String,
    pub description: String,
    pub duration: String,
    pub published: String,
    pub image: String,
    pub media_url: String,
    pub media_size: u64,
}

/// Ghost image of an episode: plain values and character sequences.
pub struct EpisodeModel {
    pub id: u64,
    pub brand_id: u64,
    pub title: Seq<char>,
    pub description: Seq<char>,
    pub duration: Seq<char>,
    pub published: Seq<char>,
    pub image: Seq<char>,
    pub media_url: Seq<char>,
    pub media_size: u64,
}

impl View for Episode {
    type V = EpisodeModel;

    open spec fn view(&self) -> EpisodeModel {
        EpisodeModel {
            id: self.id,
            brand_id: self.brand_id,
            title: self.title@,
            description: self.description@,
            duration: self.duration@,
            published: self.published@,
            image: self.image@,
            media_url: self.media_url@,
            media_size: self.media_size,
        }
    }
}

/// The playback URL derived deterministically from an episode id.
pub open spec fn spec_media_url(id: u64) -> Seq<char> {
    Seq::<char>::empty() + "https://vgtrk-podcast.cdnvideo.ru/audio/listen?id="@ + dec_of(
        id as nat,
    )
}

/// Builds the playback URL for an episode id.
pub fn media_url_for(id: u64) -> (r: String)
    ensures
        r@ == spec_media_url(id),
{
    let mut out = String::new();
    out.append("https://vgtrk-podcast.cdnvideo.ru/audio/listen?id=");
    push_u64(&mut out, id);
    out
}

/// The upstream catalog query URL for a brand id and episode limit.
pub open spec fn spec_api_url(brand: u64, limit: u16) -> Seq<char> {
    Seq::<char>::empty() + "https://smotrim.ru/api/audios?brandId="@ + dec_of(brand as nat)
        + "&limit="@ + dec_of(limit as nat)
}

/// Builds the upstream catalog query URL.
pub fn api_url_for(brand: u64, limit: u16) -> (r: String)
    ensures
        r@ == spec_api_url(brand, limit),
{
    let mut out = String::new();
    out.append("https://smotrim.ru/api/audios?brandId=");
    push_u64(&mut out, brand);
    out.append("&limit=");
    push_u64(&mut out, limit as u64);
    out
}

/// The canonical show page URL for a brand id.
pub open spec fn spec_brand_url(brand: u64) -> Seq<char> {
    Seq::<char>::empty() + "https://smotrim.ru/brand/"@ + dec_of(brand as nat)
}

/// Builds the canonical show page URL.
pub fn brand_url_for(brand: u64) -> (r: String)
    ensures
        r@ == spec_brand_url(brand),
{
    let mut out = String::new();
    out.append("https://smotrim.ru/brand/");
    push_u64(&mut out, brand);
    out
}

/// The item block for one episode: title and description escaped, the rest
/// inserted as already-normalized text.
pub open spec fn spec_episode_xml(e: EpisodeModel) -> Seq<char> {
    Seq::<char>::empty() + "<item>\n            <title>"@ + escape_text(e.title)
        + "</title>\n            <description>"@ + escape_text(e.description)
        + "</description>\n            <guid isPermaLink=\"true\">"@ + e.media_url
        + "</guid>\n            <enclosure url=\""@ + e.media_url + "\" length=\""@ + dec_of(
        e.media_size as nat,
    ) + "\" type=\"audio/mpeg\"/>\n            <itunes:duration>"@ + e.duration
        + "</itunes:duration>\n            <pubDate>"@ + e.published
        + "</pubDate>\n            <itunes:image href=\""@ + e.image
        + "\"/>\n        </item>\n        "@
}

impl Episode {
    /// Renders this episode's item block.
    pub fn to_string(&self) -> (r: String)
        ensures
            r@ == spec_episode_xml(self@),
    {
        let mut out = String::new();
        out.append("<item>\n            <title>");
        let et = escape_xml(self.title.as_str());
        out.append(et.as_str());
        out.append("</title>\n            <description>");
        let ed = escape_xml(self.description.as_str());
        out.append(ed.as_str());
        out.append("</description>\n            <guid isPermaLink=\"true\">");
        out.append(self.media_url.as_str());
        out.append("</guid>\n            <enclosure url=\"");
        out.append(self.media_url.as_str());
        out.append("\" length=\"");
        push_u64(&mut out, self.media_size);
        out.append("\" type=\"audio/mpeg\"/>\n            <itunes:duration>");
        out.append(self.duration.as_str());
        out.append("</itunes:duration>\n            <pubDate>");
        out.append(self.published.as_str());
        out.append("</pubDate>\n            <itunes:image href=\"");
        out.append(self.image.as_str());
        out.append("\"/>\n        </item>\n        ");
        out
    }
}

/// The feed's channel record.
pub struct Podcast {
    pub id: u64,
    pub title: String,
    pub description: String,
    pub link: String,
    pub image: String,
    pub episodes: Vec<Episode>,
}

/// Ghost image of the channel record.
pub struct PodcastModel {
    pub id: u64,
    pub title: Seq<char>,
    pub description: Seq<char>,
    pub link: Seq<char>,
    pub image: Seq<char>,
    pub episodes: Seq<EpisodeModel>,
}

impl View for Podcast {
    type V = PodcastModel;

    open spec fn view(&self) -> PodcastModel {
        PodcastModel {
            id: self.id,
            title: self.title@,
            description: self.description@,
            link: self.link@,
            image: self.image@,
            episodes: self.episodes@.map_values(|e: Episode| e@),
        }
    }
}

/// The item blocks of all episodes, in feed order.
pub open spec fn spec_episodes_xml(eps: Seq<EpisodeModel>) -> Seq<char>
    decreases eps.len(),
{
    if eps.len() == 0 {
        Seq::empty()
    } else {
        spec_episode_xml(eps[0]) + spec_episodes_xml(eps.skip(1))
    }
}

/// The whole RSS document for a channel, with the given build-date text.
pub open spec fn spec_feed_xml(p: PodcastModel, build_date: Seq<char>) -> Seq<char> {
    Seq::<char>::empty()
        + "<?xml version='1.0' encoding='UTF-8'?>\n<rss xmlns:atom=\"http://www.w3.org/2005/Atom\" xmlns:content=\"http://purl.org/rss/1.0/modules/content/\" xmlns:itunes=\"http://www.itunes.com/dtds/podcast-1.0.dtd\" xmlns:dc=\"http://purl.org/dc/elements/1.1/\" xmlns:podcast=\"https://podcastindex.org/namespace/1.0\" version=\"2.0\">\n<channel>\n    <title>"@
        + escape_text(p.title) + "</title>\n    <link>"@ + p.link
        + "</link>\n    <description>"@ + escape_text(p.description)
        + "</description>\n    <lastBuildDate>"@ + build_date
        + "</lastBuildDate>\n    <itunes:explicit>yes</itunes:explicit>\n    <itunes:image href="@
        + p.image
        + "/>\n    <itunes:owner>\n        <itunes:name>Sergey</itunes:name>\n        <itunes:email>me@coyotle.ru</itunes:email>\n    </itunes:owner>\n    <language>ru-RU</language>\n    <generator>smotrim_rss_proxy v0.1.0</generator>\n    <docs>http://www.rssboard.org/rss-specification</docs>\n    <podcast:funding url=\"https://pay.cloudtips.ru/p/a368e9f8\">Поддержите работу проекта</podcast:funding>\n    "@
        + spec_episodes_xml(p.episodes) + "\n</channel>\n</rss>"@
}

impl Podcast {
    /// Builds the channel record: field text is kept as handed over, the
    /// link is derived from the brand id.
    pub fn assemble(
        id: u64,
        title: String,
        description: String,
        image: String,
        episodes: Vec<Episode>,
    ) -> (r: Podcast)
        ensures
            r@.id == id,
            r@.title == title@,
            r@.description == description@,
            r@.link == spec_brand_url(id),
            r@.image == image@,
            r@.episodes == episodes@.map_values(|e: Episode| e@),
    {
        let link = brand_url_for(id);
        Podcast { id, title, description, link, image, episodes }
    }

    /// Renders the whole RSS document with the given build timestamp.
    pub fn render_at(&self, now: i64) -> (r: String)
        requires
            FMT_TS_MIN <= now <= FMT_TS_MAX,
        ensures
            r@ == spec_feed_xml(self@, spec_rfc822(now as int)),
    {
        let build_date = format_rfc822(now);
        let ghost models = self@.episodes;
        let mut eps = String::new();
        let mut i: usize = 0;
        proof {
            assert(models.skip(0) =~= models);
            assert(eps@ + spec_episodes_xml(models) =~= spec_episodes_xml(models));
        }
        while i < self.episodes.len()
            invariant
                0 <= i <= self.episodes.len(),
                models == self@.episodes,
                models.len() == self.episodes.len(),
                eps@ + spec_episodes_xml(models.skip(i as int)) == spec_episodes_xml(models),
            decreases self.episodes.len() - i,
        {
            let ghost eps0 = eps@;
            let item_xml = self.episodes[i].to_string();
            eps.append(item_xml.as_str());
            proof {
                assert(models[i as int] == self.episodes@[i as int]@);
                assert(models.skip(i as int).skip(1) =~= models.skip(i + 1));
                assert(spec_episodes_xml(models.skip(i as int)) == spec_episode_xml(
                    models[i as int],
                ) + spec_episodes_xml(models.skip(i + 1)));
                assert(eps@ + spec_episodes_xml(models.skip(i + 1)) =~= eps0 + spec_episodes_xml(
                    models.skip(i as int),
                ));
            }
            i = i + 1;
        }
        proof {
            assert(models.skip(self.episodes.len() as int) =~= Seq::<EpisodeModel>::empty());
            assert(eps@ + Seq::<char>::empty() =~= eps@);
        }
        let mut out = String::new();
        out.append(
            "<?xml version='1.0' encoding='UTF-8'?>\n<rss xmlns:atom=\"http://www.w3.org/2005/Atom\" xmlns:content=\"http://purl.org/rss/1.0/modules/content/\" xmlns:itunes=\"http://www.itunes.com/dtds/podcast-1.0.dtd\" xmlns:dc=\"http://purl.org/dc/elements/1.1/\" xmlns:podcast=\"https://podcastindex.org/namespace/1.0\" version=\"2.0\">\n<channel>\n    <title>",
        );
        let et = escape_xml(self.title.as_str());
        out.append(et.as_str());
        out.append("</title>\n    <link>");
        out.append(self.link.as_str());
        out.append("</link>\n    <description>");
        let ed = escape_xml(self.description.as_str());
        out.append(ed.as_str());
        out.append("</description>\n    <lastBuildDate>");
        out.append(build_date.as_str());
        out.append(
            "</lastBuildDate>\n    <itunes:explicit>yes</itunes:explicit>\n    <itunes:image href=",
        );
        out.append(self.image.as_str());
        out.append(
            "/>\n    <itunes:owner>\n        <itunes:name>Sergey</itunes:name>\n        <itunes:email>me@coyotle.ru</itunes:email>\n    </itunes:owner>\n    <language>ru-RU</language>\n    <generator>smotrim_rss_proxy v0.1.0</generator>\n    <docs>http://www.rssboard.org/rss-specification</docs>\n    <podcast:funding url=\"https://pay.cloudtips.ru/p/a368e9f8\">Поддержите работу проекта</podcast:funding>\n    ",
        );
        out.append(eps.as_str());
        out.append("\n</channel>\n</rss>");
        out
    }

    /// Renders the document with the clock's moment as the build date: the
    /// `lastBuildDate` is the render moment, never the cache stamp.
    pub fn to_string(&self) -> (r: String)
        ensures
            exists|now: int|
                #![auto]
                FMT_TS_MIN <= now <= FMT_TS_MAX && r@ == spec_feed_xml(self@, spec_rfc822(now)),
    {
        let now = current_timestamp();
        let r = self.render_at(now);
        r
    }
}

} // verus!
