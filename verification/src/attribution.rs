//! Which pull requests each session opened.
//!
//! A directory holds one record file per session, named by the session's key.
//! The model holds what those files record.
use vstd::hash_map::StringHashMap;
use vstd::prelude::*;

use crate::record;
use crate::record::parse_record;
use crate::session_key;
use crate::session_key::hex_encode;
use crate::text;

verus! {

/// What is known of one entry of the directory of record files.
pub struct DirectoryEntry {
    /// Whether the entry is a file.
    pub is_file: bool,
    /// The entry's name; `None` if it is not valid text.
    pub name: Option<String>,
    /// The file's text; `None` if it cannot be read.
    pub contents: Option<String>,
}

/// The pull requests of sessions, by session key.
pub type Attribution = Map<Seq<char>, Seq<Seq<char>>>;

impl DirectoryEntry {
    /// Whether the entry records pull requests: a file with a name and a text that
    /// can be read, which holds at least one URL.
    pub open spec fn is_record(self) -> bool {
        &&& self.is_file
        &&& self.name is Some
        &&& self.contents is Some
        &&& record::recorded_urls(self.contents->0@).len() > 0
    }

    /// The session key that a record is named by.
    pub open spec fn key(self) -> Seq<char> {
        self.name->0@
    }

    /// The URLs that a record holds.
    pub open spec fn urls(self) -> Seq<Seq<char>> {
        record::recorded_urls(self.contents->0@)
    }
}

/// What the entries of a directory record. Of two records with one name the later
/// counts.
pub open spec fn attribution_of(entries: Seq<DirectoryEntry>) -> Attribution
    decreases entries.len(),
{
    if entries.len() == 0 {
        Map::empty()
    } else if entries.last().is_record() {
        attribution_of(entries.drop_last()).insert(entries.last().key(), entries.last().urls())
    } else {
        attribution_of(entries.drop_last())
    }
}

/// The URLs attributed to a session; none if it is not known.
pub open spec fn urls_for(attribution: Attribution, key: Seq<char>) -> Seq<Seq<char>> {
    if attribution.contains_key(key) {
        attribution[key]
    } else {
        seq![]
    }
}

/// The attribution with a session's URLs set to `urls`.
pub open spec fn with_urls(
    attribution: Attribution,
    key: Seq<char>,
    urls: Seq<Seq<char>>,
) -> Attribution {
    if urls.len() == 0 {
        attribution.remove(key)
    } else {
        attribution.insert(key, urls)
    }
}

/// Tracks the pull requests that sessions opened.
pub struct ClaudePrAttributionModel {
    /// Session key to URLs, in recorded order.
    prs: StringHashMap<Vec<String>>,
}

impl View for ClaudePrAttributionModel {
    type V = Attribution;

    closed spec fn view(&self) -> Attribution {
        self.prs@.map_values(|urls: Vec<String>| text::texts(urls@))
    }
}

impl ClaudePrAttributionModel {
    /// Every session that the model holds opened at least one pull request.
    pub open spec fn wf(self) -> bool {
        forall|key: Seq<char>| #[trigger]
            self@.contains_key(key) ==> self@[key].len() > 0
    }

    /// A model that knows of no pull request.
    pub fn new() -> (model: Self)
        ensures
            model.wf(),
            model@ == Attribution::empty(),
    {
        let model = ClaudePrAttributionModel { prs: StringHashMap::new() };
        assert(model@ =~= Attribution::empty());
        model
    }

    /// Replaces what the model holds by what the directory records, given the
    /// directory's entries (`None` if it cannot be listed).
    pub fn reload(&mut self, entries: Option<&Vec<DirectoryEntry>>)
        ensures
            final(self).wf(),
            final(self)@ == match entries {
                Some(entries) => attribution_of(entries@),
                None => Attribution::empty(),
            },
    {
        self.prs.clear();
        assert(self@ =~= Attribution::empty());
        let entries = match entries {
            Some(entries) => entries,
            None => {
                return ;
            },
        };
        for i in 0..entries.len()
            invariant
                self.wf(),
                self@ == attribution_of(entries@.take(i as int)),
        {
            proof {
                assert(entries@.take(i + 1).drop_last() == entries@.take(i as int));
            }
            self.load_entry(&entries[i]);
        }
        assert(entries@.take(entries@.len() as int) == entries@);
    }

    /// Takes in one entry of the directory, if it records anything.
    fn load_entry(&mut self, entry: &DirectoryEntry)
        requires
            old(self).wf(),
        ensures
            final(self).wf(),
            final(self)@ == if entry.is_record() {
                old(self)@.insert(entry.key(), entry.urls())
            } else {
                old(self)@
            },
    {
        if !entry.is_file {
            return ;
        }
        if let Some(name) = &entry.name {
            if let Some(contents) = &entry.contents {
                let urls = parse_record(contents.as_str());
                if urls.len() > 0 {
                    self.insert(name.clone(), urls);
                }
            }
        }
    }

    fn insert(&mut self, key: String, urls: Vec<String>)
        ensures
            final(self)@ == old(self)@.insert(key@, text::texts(urls@)),
    {
        self.prs.insert(key, urls);
        assert(self@ =~= old(self)@.insert(key@, text::texts(urls@)));
    }

    /// The URLs of the pull requests that the session with this uuid opened, in the
    /// order in which they were opened. Empty if it opened none.
    pub fn prs_for(&self, session_uuid: &[u8]) -> (urls: Vec<String>)
        requires
            2 * session_uuid@.len() <= isize::MAX,
        ensures
            text::texts(urls@) == urls_for(self@, session_key::hex_text(session_uuid@)),
    {
        let key = hex_encode(session_uuid);
        self.prs_for_hex(key.as_str())
    }

    /// Like [`Self::prs_for`], by the session's key.
    pub fn prs_for_hex(&self, session_uuid_hex: &str) -> (urls: Vec<String>)
        ensures
            text::texts(urls@) == urls_for(self@, session_uuid_hex@),
    {
        match self.prs.get(session_uuid_hex) {
            Some(found) => {
                let urls = found.clone();
                assert(urls@ =~= found@);
                urls
            },
            None => Vec::new(),
        }
    }

    /// Sets the URLs of a session, by its key. Without any, the session is no
    /// longer known.
    pub fn set_prs_for_hex(&mut self, session_uuid_hex: &str, urls: Vec<String>)
        ensures
            old(self).wf() ==> final(self).wf(),
            final(self)@ == with_urls(old(self)@, session_uuid_hex@, text::texts(urls@)),
    {
        if urls.len() == 0 {
            self.prs.remove(session_uuid_hex);
            assert(self@ =~= old(self)@.remove(session_uuid_hex@));
        } else {
            self.insert(session_uuid_hex.to_owned(), urls);
        }
    }
}

} // verus!
