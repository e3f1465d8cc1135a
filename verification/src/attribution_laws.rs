//! Laws of the attribution: what a listing attributes to whom, entry by entry and
//! session by session.
use vstd::prelude::*;

use crate::attribution;
use crate::record;
use crate::session_key;

verus! {

/// A listing counts entry by entry: a file with a name and a text that can be read,
/// which holds a URL, sets what its name is attributed, and any other entry nothing.
/// Without entries nothing is attributed.
pub proof fn listing_counts_entry_by_entry(
    entries: Seq<attribution::DirectoryEntry>,
    entry: attribution::DirectoryEntry,
    name: String,
    contents: String,
)
    ensures
        attribution::attribution_of(seq![]) == Map::<Seq<char>, Seq<Seq<char>>>::empty(),
        !entry.is_file || entry.name is None || entry.contents is None
            ==> attribution::attribution_of(entries.push(entry)) == attribution::attribution_of(
            entries,
        ),
        entry.contents == Some(contents) && record::recorded_urls(contents@).len() == 0
            ==> attribution::attribution_of(entries.push(entry)) == attribution::attribution_of(
            entries,
        ),
        entry.is_file && entry.name == Some(name) && entry.contents == Some(contents)
            && record::recorded_urls(contents@).len() > 0 ==> attribution::attribution_of(
            entries.push(entry),
        ) == attribution::attribution_of(entries).insert(
            name@,
            record::recorded_urls(contents@),
        ),
{
    assert(entries.push(entry).drop_last() =~= entries);
}

/// A session is attributed the URLs that its file records, in order, if no other entry
/// has the name of the file.
pub proof fn session_gets_what_its_file_records(
    entries: Seq<attribution::DirectoryEntry>,
    index: int,
    name: String,
    contents: String,
)
    requires
        0 <= index < entries.len(),
        entries[index].is_file,
        entries[index].name == Some(name),
        entries[index].contents == Some(contents),
        forall|i: int|
            0 <= i < entries.len() && i != index ==> (#[trigger] entries[i]).name is None
                || entries[i].name->0@ != name@,
    ensures
        attribution::urls_for(attribution::attribution_of(entries), name@)
            == record::recorded_urls(contents@),
    decreases entries.len(),
{
    let front = entries.drop_last();
    let last = entries.last();
    assert(front.push(last) =~= entries);
    assert forall|i: int| 0 <= i < front.len() implies front[i] == entries[i] by {}
    if index == entries.len() - 1 {
        assert forall|i: int| 0 <= i < front.len() implies (#[trigger] front[i]).name is None
            || front[i].name->0@ != name@ by {
            assert(entries[i].name is None || entries[i].name->0@ != name@);
        }
        session_without_a_file_gets_nothing(front, name@);
        if record::recorded_urls(contents@).len() == 0 {
            assert(record::recorded_urls(contents@) =~= seq![]);
        }
    } else {
        assert(last == entries[entries.len() - 1]);
        assert forall|i: int| 0 <= i < front.len() && i != index implies (
        #[trigger] front[i]).name is None || front[i].name->0@ != name@ by {
            assert(entries[i].name is None || entries[i].name->0@ != name@);
        }
        session_gets_what_its_file_records(front, index, name, contents);
    }
}

/// A session is attributed nothing if no entry with its name is a file that can be
/// read.
pub proof fn session_without_a_file_gets_nothing(
    entries: Seq<attribution::DirectoryEntry>,
    key: Seq<char>,
)
    requires
        forall|i: int|
            0 <= i < entries.len() ==> (#[trigger] entries[i]).name is None
                || entries[i].name->0@ != key || !entries[i].is_file
                || entries[i].contents is None,
    ensures
        attribution::urls_for(attribution::attribution_of(entries), key) == Seq::<
            Seq<char>,
        >::empty(),
        !attribution::attribution_of(entries).contains_key(key),
    decreases entries.len(),
{
    if entries.len() > 0 {
        let front = entries.drop_last();
        assert(entries.last() == entries[entries.len() - 1]);
        assert forall|i: int| 0 <= i < front.len() implies (#[trigger] front[i]).name is None
            || front[i].name->0@ != key || !front[i].is_file || front[i].contents is None by {
            assert(front[i] == entries[i]);
        }
        session_without_a_file_gets_nothing(front, key);
    }
}

/// What is looked up is what is held, and nothing for a session that is not known.
pub proof fn lookup_gives_what_is_held(
    attribution: Map<Seq<char>, Seq<Seq<char>>>,
    key: Seq<char>,
    urls: Seq<Seq<char>>,
)
    ensures
        attribution::urls_for(attribution.insert(key, urls), key) == urls,
        attribution::urls_for(attribution.remove(key), key) == Seq::<Seq<char>>::empty(),
        attribution.contains_key(key) ==> attribution::urls_for(attribution, key)
            == attribution[key],
{
}

/// Setting the URLs of a session puts them in the place of its own, or forgets the
/// session if there are none, and does nothing else.
pub proof fn setting_replaces_one_session(
    attribution: Map<Seq<char>, Seq<Seq<char>>>,
    key: Seq<char>,
    urls: Seq<Seq<char>>,
)
    ensures
        urls.len() > 0 ==> attribution::with_urls(attribution, key, urls) == attribution.insert(
            key,
            urls,
        ),
        urls.len() == 0 ==> attribution::with_urls(attribution, key, urls) == attribution.remove(
            key,
        ),
{
}

/// A model is valid if and only if no session in it is without a URL.
pub proof fn valid_models_hold_no_empty_list(model: attribution::ClaudePrAttributionModel)
    ensures
        model.wf() <==> !exists|key: Seq<char>| #[trigger]
            model@.contains_key(key) && model@[key].len() == 0,
{
}

/// The key of a session has two digits for each byte of its uuid, in order, which are
/// the lower-case hexadecimal digits of its high and its low half.
pub proof fn key_has_two_digits_for_a_byte(uuid: Seq<u8>, byte: u8)
    ensures
        session_key::hex_text(seq![]) == Seq::<char>::empty(),
        session_key::hex_text(uuid.push(byte)) == session_key::hex_text(uuid) + seq![
            "0123456789abcdef"@[byte as int / 16],
            "0123456789abcdef"@[byte as int % 16],
        ],
{
    reveal_strlit("0123456789abcdef");
    let before = session_key::hex_text(uuid);
    let after = session_key::hex_text(uuid.push(byte));
    let n = 2 * uuid.len() as int;
    let high = byte as int / 16;
    let low = byte as int % 16;
    assert(session_key::hex_digit(high) == "0123456789abcdef"@[high]);
    assert(session_key::hex_digit(low) == "0123456789abcdef"@[low]);
    assert(uuid.push(byte)[uuid.len() as int] == byte);
    assert(n / 2 == uuid.len() && (n + 1) / 2 == uuid.len() && n % 2 == 0 && (n + 1) % 2 == 1);
    assert(after[n] == session_key::hex_digit(high));
    assert(after[n + 1] == session_key::hex_digit(low));
    assert forall|i: int| 0 <= i < n implies after[i] == before[i] by {
        assert(0 <= i / 2 < uuid.len());
        assert(uuid.push(byte)[i / 2] == uuid[i / 2]);
    }
    assert(after =~= before + seq![
        "0123456789abcdef"@[high],
        "0123456789abcdef"@[low],
    ]);
    assert(session_key::hex_text(seq![]) =~= seq![]);
}

} // verus!
