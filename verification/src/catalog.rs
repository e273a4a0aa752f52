//! The stored records: podcasts and the server's configuration, and what
//! the service's queries and changes compute of them. Reading, decoding and
//! storing the records is the caller's.
use crate::error::Error;
use crate::schedule::{ScheduleConfiguration, ScheduleConfigurationProposal};
use vstd::prelude::*;

verus! {

/// Where a podcast's feed comes from.
#[derive(Eq, PartialEq, Debug, Clone)]
pub enum Source {
    /// A YouTube channel, by its identifier.
    Youtube(String),
}

/// A stored podcast.
#[derive(Clone, Debug)]
pub struct Podcast {
    /// The name, by which the podcast is stored and found.
    pub name: String,
    /// Where the feed comes from.
    pub source: Source,
    /// How often the source is checked; never, where there is none.
    pub update_schedule: Option<ScheduleConfiguration>,
    /// The categories of segments that are cut out; none, where there is no
    /// list.
    pub sponsorblock_categories: Option<Vec<String>>,
    /// Arguments handed to the downloader.
    pub downloader_arguments: Option<Vec<String>>,
}

/// The configuration of the server.
#[derive(Clone, Debug)]
pub struct ServerConfig {
    /// How often the download queue is worked on.
    pub downloader_schedule: ScheduleConfiguration,
    /// Where media and feeds are kept.
    pub media_directory: String,
    /// Whether the server serves the feeds and the media itself.
    pub serve_feed_and_media: bool,
}

impl ServerConfig {
    /// The configuration of a server for which none is stored: the queue is
    /// worked on every five minutes, media go to `media`, nothing is served.
    pub open spec fn is_default(&self) -> bool {
        &&& self.downloader_schedule.base == clokwerk::Interval::Minutes(5)
        &&& self.downloader_schedule.adjustment is None
        &&& self.media_directory@ == "media"@
        &&& !self.serve_feed_and_media
    }
}

impl Default for ServerConfig {
    fn default() -> (config: Self)
        ensures
            config.is_default(),
    {
        ServerConfig {
            downloader_schedule: ScheduleConfiguration {
                base: clokwerk::Interval::Minutes(5),
                adjustment: None,
            },
            media_directory: "media".to_owned(),
            serve_feed_and_media: false,
        }
    }
}

/// The categories of segments that can be cut out, each with its label, in
/// the order in which they are listed.
pub open spec fn category_table() -> Seq<(Seq<char>, Seq<char>)> {
    seq![
        ("sponsor"@, "Sponsor"@),
        ("intro"@, "Intermission/Intro Animation"@),
        ("outro"@, "Endcards/Credits"@),
        ("selfpromo"@, "Unpaid/Self Promotion"@),
        ("interaction"@, "Interaction Reminder"@),
        ("preview"@, "Preview/Recap"@),
        ("music_offtopic"@, "Non-Music Section"@),
    ]
}

/// `name` is the key of a category of the table.
pub open spec fn is_category(name: Seq<char>) -> bool {
    exists|i: int| 0 <= i < category_table().len() && #[trigger] category_table()[i].0 == name
}

/// The texts of a list of strings.
pub open spec fn texts(list: Seq<String>) -> Seq<Seq<char>> {
    list.map_values(|name: String| name@)
}

/// The keys of the table, in its order.
pub open spec fn category_keys() -> Seq<Seq<char>> {
    category_table().map_values(|entry: (Seq<char>, Seq<char>)| entry.0)
}

/// What a request for categories is stored as. Without a request nothing is
/// stored. The one word `all` stands for every category of the table. Of any
/// other request the categories of the table are kept, in the order of the
/// request, and the rest is dropped.
pub open spec fn categories_resolved(
    requested: Option<Vec<String>>,
    stored: Option<Vec<String>>,
) -> bool {
    match requested {
        None => stored is None,
        Some(names) => stored matches Some(kept) && if names@.len() == 1 && names@[0]@ == "all"@ {
            texts(kept@) == category_keys()
        } else {
            kept@ == names@.filter(|name: String| is_category(name@))
        },
    }
}

/// The table as it is handed out: keys and labels as strings.
pub fn category_list() -> (list: Vec<(String, String)>)
    ensures
        list@.len() == category_table().len(),
        forall|i: int|
            0 <= i < list@.len() ==> (#[trigger] list@[i]).0@ == category_table()[i].0
                && list@[i].1@ == category_table()[i].1,
{
    let mut list: Vec<(String, String)> = Vec::new();
    list.push(("sponsor".to_owned(), "Sponsor".to_owned()));
    list.push(("intro".to_owned(), "Intermission/Intro Animation".to_owned()));
    list.push(("outro".to_owned(), "Endcards/Credits".to_owned()));
    list.push(("selfpromo".to_owned(), "Unpaid/Self Promotion".to_owned()));
    list.push(("interaction".to_owned(), "Interaction Reminder".to_owned()));
    list.push(("preview".to_owned(), "Preview/Recap".to_owned()));
    list.push(("music_offtopic".to_owned(), "Non-Music Section".to_owned()));
    list
}

/// Whether `name` is the key of a category of the table.
pub fn is_supported_category(name: &String) -> (known: bool)
    ensures
        known == is_category(name@),
{
    let table = category_list();
    let mut i: usize = 0;
    while i < table.len()
        invariant
            i <= table.len(),
            table@.len() == category_table().len(),
            forall|j: int|
                0 <= j < table@.len() ==> (#[trigger] table@[j]).0@ == category_table()[j].0,
            forall|j: int| 0 <= j < i ==> #[trigger] category_table()[j].0 != name@,
        decreases table.len() - i,
    {
        if table[i].0 == *name {
            assert(category_table()[i as int].0 == name@);
            return true;
        }
        i += 1;
    }
    false
}

/// The keys of the table as strings, in its order.
fn all_categories() -> (keys: Vec<String>)
    ensures
        texts(keys@) == category_keys(),
{
    let table = category_list();
    let mut keys: Vec<String> = Vec::new();
    let mut i: usize = 0;
    while i < table.len()
        invariant
            i <= table.len(),
            keys@.len() == i,
            table@.len() == category_table().len(),
            forall|j: int|
                0 <= j < table@.len() ==> (#[trigger] table@[j]).0@ == category_table()[j].0,
            forall|j: int| 0 <= j < i ==> (#[trigger] keys@[j])@ == category_table()[j].0,
        decreases table.len() - i,
    {
        keys.push(table[i].0.clone());
        i += 1;
    }
    assert(texts(keys@) =~= category_keys());
    keys
}

/// The categories of the table among `names`, in the order of `names`.
fn supported_categories(names: &Vec<String>) -> (kept: Vec<String>)
    ensures
        kept@ == names@.filter(|name: String| is_category(name@)),
{
    let ghost supported = |name: String| is_category(name@);
    let mut kept: Vec<String> = Vec::new();
    let mut i: usize = 0;
    proof {
        reveal(Seq::filter);
        assert(names@.take(0) =~= Seq::<String>::empty());
    }
    while i < names.len()
        invariant
            i <= names.len(),
            supported == |name: String| is_category(name@),
            kept@ == names@.take(i as int).filter(supported),
        decreases names.len() - i,
    {
        proof {
            reveal(Seq::filter);
            assert(names@.take(i + 1).drop_last() =~= names@.take(i as int));
        }
        if is_supported_category(&names[i]) {
            kept.push(names[i].clone());
        }
        i += 1;
    }
    proof {
        assert(names@.take(names.len() as int) =~= names@);
    }
    kept
}

/// The queries that the service answers.
pub struct QueryRoot;

/// The changes that the service accepts.
pub struct MutationRoot;

impl QueryRoot {
    /// The configuration of the server: the stored one, or the default one
    /// where none is stored.
    pub fn server_config(&self, stored: Option<ServerConfig>) -> (config: ServerConfig)
        ensures
            stored matches Some(found) ==> config == found,
            stored is None ==> config.is_default(),
    {
        match stored {
            Some(found) => found,
            None => ServerConfig::default(),
        }
    }

    /// The categories of segments that can be cut out, each with its label.
    pub fn allowed_sponsorblock_categories(&self) -> (list: Vec<(String, String)>)
        ensures
            list@.len() == category_table().len(),
            forall|i: int|
                0 <= i < list@.len() ==> (#[trigger] list@[i]).0@ == category_table()[i].0
                    && list@[i].1@ == category_table()[i].1,
    {
        category_list()
    }
}

impl MutationRoot {
    /// The record of a podcast that is to be stored under `name`, in place
    /// of any that is stored there.
    pub fn create_podcast(
        &self,
        name: String,
        source: Source,
        schedule_configuration: Option<ScheduleConfigurationProposal>,
        sponsorblock_categories: Option<Vec<String>>,
        downloader_arguments: Option<Vec<String>>,
    ) -> (podcast: Podcast)
        ensures
            podcast.name == name,
            podcast.source == source,
            match schedule_configuration {
                Some(proposal) => podcast.update_schedule == Some(proposal.accepted()),
                None => podcast.update_schedule is None,
            },
            categories_resolved(sponsorblock_categories, podcast.sponsorblock_categories),
            podcast.downloader_arguments == downloader_arguments,
    {
        let update_schedule = match schedule_configuration {
            Some(proposal) => Some(proposal.into()),
            None => None,
        };
        let stored_categories = match &sponsorblock_categories {
            Some(names) => {
                if names.len() == 1 && names[0] == "all".to_owned() {
                    Some(all_categories())
                } else {
                    Some(supported_categories(names))
                }
            },
            None => None,
        };
        Podcast {
            name,
            source,
            update_schedule,
            sponsorblock_categories: stored_categories,
            downloader_arguments,
        }
    }

    /// Deleting a podcast and its media. Nothing is deleted yet, which the
    /// answer says.
    pub fn purge_podcast(&self, name: String) -> (purged: Result<bool, Error>)
        ensures
            purged == Ok::<bool, Error>(false),
    {
        Ok(false)
    }

    /// Processing a podcast out of turn, of which `stored` is what was found
    /// under its name.
    pub fn manually_process_podcast(
        &self,
        stored: Option<Podcast>,
        overwrite_existing: bool,
    ) -> (processed: Result<bool, Error>)
        ensures
            stored is Some ==> processed == Ok::<bool, Error>(true),
            stored is None ==> processed == Err::<bool, Error>(Error::PodcastNotFound),
    {
        match stored {
            Some(_) => Ok(true),
            None => Err(Error::PodcastNotFound),
        }
    }
}

} // verus!
