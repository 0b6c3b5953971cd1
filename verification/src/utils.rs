//! Names for this peer, and the attribute records by which peers announce
//! themselves.

use crate::config::{
    PROTOCOL_VERSION, TXT_KEY_INSTANCE, TXT_KEY_PEER_ID, TXT_KEY_PEER_NAME, TXT_KEY_PLATFORM,
    TXT_KEY_VERSION,
};
use crate::sys::{
    host_name, hyphenated, is_random_uuid, platform_name, random_uuid, user_name, uuid_text,
};
use crate::text::texts;
use vstd::hash_map::StringHashMap;
use vstd::prelude::*;
use vstd::string::*;

verus! {

/// Whether `i` is the place of the first `=` in `entry`.
pub open spec fn splits_at(entry: Seq<char>, i: int) -> bool {
    &&& 0 <= i < entry.len()
    &&& entry[i] == '='
    &&& forall|j: int| 0 <= j < i ==> entry[j] != '='
}

/// The key and the value of an attribute entry: what stands before its first
/// `=` and what stands after it. An entry without `=` has neither.
pub open spec fn split_entry(entry: Seq<char>) -> Option<(Seq<char>, Seq<char>)> {
    if exists|i: int| splits_at(entry, i) {
        let i = choose|i: int| splits_at(entry, i);
        Some((entry.take(i), entry.skip(i + 1)))
    } else {
        None
    }
}

/// The attributes that a list of entries gives: each entry with a `=` sets
/// its key to its value, a later entry winning over an earlier one with the
/// same key; entries without `=` are passed over.
pub open spec fn txt_map(txt: Seq<Seq<char>>) -> Map<Seq<char>, Seq<char>>
    decreases txt.len(),
{
    if txt.len() == 0 {
        Map::empty()
    } else {
        match split_entry(txt.last()) {
            Some((key, value)) => txt_map(txt.drop_last()).insert(key, value),
            None => txt_map(txt.drop_last()),
        }
    }
}

/// The attribute entry `key=value`.
pub open spec fn txt_entry(key: Seq<char>, value: Seq<char>) -> Seq<char> {
    key + seq!['='] + value
}

/// The entries by which a peer announces itself.
pub open spec fn txt_records(
    peer_id: Seq<char>,
    peer_name: Seq<char>,
    instance_name: Seq<char>,
    platform: Seq<char>,
) -> Seq<Seq<char>> {
    seq![
        txt_entry(TXT_KEY_PEER_ID@, peer_id),
        txt_entry(TXT_KEY_PEER_NAME@, peer_name),
        txt_entry(TXT_KEY_INSTANCE@, instance_name),
        txt_entry(TXT_KEY_PLATFORM@, platform),
        txt_entry(TXT_KEY_VERSION@, PROTOCOL_VERSION@),
    ]
}

/// The number of bytes that `c` takes in UTF-8.
pub open spec fn utf8_width(c: char) -> int {
    if (c as u32) < 0x80 {
        1
    } else if (c as u32) < 0x800 {
        2
    } else if (c as u32) < 0x1_0000 {
        3
    } else {
        4
    }
}

/// The number of bytes that `s` takes in UTF-8.
pub open spec fn utf8_len(s: Seq<char>) -> int
    decreases s.len(),
{
    if s.len() == 0 {
        0
    } else {
        utf8_len(s.drop_last()) + utf8_width(s.last())
    }
}

/// Whether the first `k` characters of `peer_id` take six bytes.
pub open spec fn six_bytes(peer_id: Seq<char>, k: int) -> bool {
    0 <= k <= peer_id.len() && utf8_len(peer_id.take(k)) == 6
}

/// Whether `peer_id` has a short form: its first six bytes are whole
/// characters.
pub open spec fn has_short_id(peer_id: Seq<char>) -> bool {
    exists|k: int| six_bytes(peer_id, k)
}

/// The short form of a peer identifier: the characters that its first six
/// bytes hold.
pub open spec fn short_id(peer_id: Seq<char>) -> Seq<char>
    recommends
        has_short_id(peer_id),
{
    peer_id.take(choose|k: int| six_bytes(peer_id, k))
}

/// The name under which a peer's instance is announced:
/// `name@host [short id]`.
pub open spec fn instance_name(peer_name: Seq<char>, host: Seq<char>, short: Seq<char>) -> Seq<
    char,
> {
    peer_name + seq!['@'] + host + seq![' ', '['] + short + seq![']']
}

/// A longer prefix takes more bytes.
proof fn lemma_utf8_len_grows(s: Seq<char>, a: int, b: int)
    requires
        0 <= a < b <= s.len(),
    ensures
        utf8_len(s.take(a)) < utf8_len(s.take(b)),
    decreases b - a,
{
    assert(s.take(b).drop_last() =~= s.take(b - 1));
    if a < b - 1 {
        lemma_utf8_len_grows(s, a, b - 1);
    }
}

/// The name that this peer goes by unless it is given another: the name of
/// the user who runs the process.
pub fn generate_peer_name() -> (peer_name: String) {
    user_name()
}

/// A fresh identifier for this peer: a random UUID in its hyphenated form.
pub fn generate_peer_id() -> (peer_id: String)
    ensures
        exists|id: u128| is_random_uuid(id) && peer_id@ == hyphenated(id),
        has_short_id(peer_id@),
{
    let id = random_uuid();
    let peer_id = uuid_text(id);
    proof {
        lemma_hyphenated_has_short_id(id);
    }
    peer_id
}

/// The first six characters of a hyphenated UUID are hexadecimal digits, one
/// byte each.
pub proof fn lemma_hyphenated_has_short_id(id: u128)
    ensures
        has_short_id(hyphenated(id)),
        short_id(hyphenated(id)) == hyphenated(id).take(6),
{
    let s = hyphenated(id);
    assert forall|i: int| 0 <= i < 6 implies utf8_width(#[trigger] s[i]) == 1 by {
        let d = crate::sys::uuid_nibble(id, i);
        assert(0 <= d < 16);
    }
    lemma_ascii_prefix(s, 6);
    assert(six_bytes(s, 6));
    let k = choose|k: int| six_bytes(s, k);
    if k < 6 {
        lemma_utf8_len_grows(s, k, 6);
    } else if k > 6 {
        lemma_utf8_len_grows(s, 6, k);
    }
}

/// A prefix of one-byte characters takes as many bytes as it has characters.
proof fn lemma_ascii_prefix(s: Seq<char>, k: int)
    requires
        0 <= k <= s.len(),
        forall|i: int| 0 <= i < k ==> utf8_width(#[trigger] s[i]) == 1,
    ensures
        utf8_len(s.take(k)) == k,
    decreases k,
{
    if k > 0 {
        assert(s.take(k).drop_last() =~= s.take(k - 1));
        lemma_ascii_prefix(s, k - 1);
    }
}

fn char_width(c: char) -> (width: usize)
    ensures
        width == utf8_width(c),
{
    let v = c as u32;
    if v < 0x80 {
        1
    } else if v < 0x800 {
        2
    } else if v < 0x1_0000 {
        3
    } else {
        4
    }
}

/// The short form of `peer_id`, where it has one.
pub fn short_id_of(peer_id: &str) -> (short: Option<String>)
    ensures
        short is Some <==> has_short_id(peer_id@),
        short matches Some(s) ==> s@ == short_id(peer_id@),
{
    let n = peer_id.unicode_len();
    let mut k: usize = 0;
    let mut bytes: usize = 0;
    proof {
        assert(peer_id@.take(0) =~= Seq::<char>::empty());
    }
    while k < n && bytes < 6
        invariant
            n == peer_id@.len(),
            k <= n,
            bytes == utf8_len(peer_id@.take(k as int)),
            forall|j: int| 0 <= j < k ==> utf8_len(peer_id@.take(j)) < 6,
        decreases n - k,
    {
        let c = peer_id.get_char(k);
        proof {
            assert(peer_id@.take(k + 1).drop_last() =~= peer_id@.take(k as int));
        }
        bytes = bytes + char_width(c);
        k = k + 1;
    }
    if bytes == 6 {
        proof {
            assert(six_bytes(peer_id@, k as int));
            let chosen = choose|j: int| six_bytes(peer_id@, j);
            if chosen < k {
                lemma_utf8_len_grows(peer_id@, chosen, k as int);
            } else if chosen > k {
                lemma_utf8_len_grows(peer_id@, k as int, chosen);
            }
        }
        Some(peer_id.substring_char(0, k).to_owned())
    } else {
        proof {
            assert forall|j: int| !six_bytes(peer_id@, j) by {
                if k < j <= n {
                    lemma_utf8_len_grows(peer_id@, k as int, j);
                }
            }
        }
        None
    }
}

/// The instance name of the peer called `peer_name` with identifier
/// `peer_id` on the host called `host`, where the identifier has a short
/// form.
pub fn instance_name_on(peer_name: &str, host: &str, peer_id: &str) -> (name: Option<String>)
    ensures
        name is Some <==> has_short_id(peer_id@),
        name matches Some(n) ==> n@ == instance_name(peer_name@, host@, short_id(peer_id@)),
{
    match short_id_of(peer_id) {
        Some(short) => {
            proof {
                reveal_strlit("@");
                reveal_strlit(" [");
                reveal_strlit("]");
            }
            let mut name = peer_name.to_owned();
            name.append("@");
            name.append(host);
            name.append(" [");
            name.append(short.as_str());
            name.append("]");
            assert(name@ =~= instance_name(peer_name@, host@, short_id(peer_id@)));
            Some(name)
        },
        None => None,
    }
}

/// The instance name of the peer called `peer_name` with identifier
/// `peer_id` on this host. The host is called `unknown-host` where the system
/// gives no name for it.
pub fn generate_instance_name(peer_name: &str, peer_id: &str) -> (name: String)
    requires
        has_short_id(peer_id@),
    ensures
        exists|host: Seq<char>| name@ == instance_name(peer_name@, host, short_id(peer_id@)),
{
    let host = match host_name() {
        Some(host) => host,
        None => "unknown-host".to_owned(),
    };
    match instance_name_on(peer_name, host.as_str(), peer_id) {
        Some(name) => name,
        None => {
            assert(false);
            String::new()
        },
    }
}

/// Splits an attribute entry at its first `=`.
pub fn split_key_value(entry: &str) -> (pair: Option<(String, String)>)
    ensures
        match pair {
            Some((key, value)) => split_entry(entry@) == Some((key@, value@)),
            None => split_entry(entry@) is None,
        },
{
    let n = entry.unicode_len();
    let mut i: usize = 0;
    for c in it: entry.chars()
        invariant
            it.seq() == entry@,
            n == entry@.len(),
            i == it.index(),
            forall|j: int| 0 <= j < i ==> entry@[j] != '=',
    {
        if c == '=' {
            proof {
                assert(splits_at(entry@, i as int));
                let chosen = choose|j: int| splits_at(entry@, j);
                assert(chosen == i);
            }
            let key = entry.substring_char(0, i).to_owned();
            let value = entry.substring_char(i + 1, n).to_owned();
            proof {
                assert(key@ =~= entry@.take(i as int));
                assert(value@ =~= entry@.skip(i + 1));
            }
            return Some((key, value));
        }
        i += 1;
    }
    None
}

/// The character sequences that the values of `map` hold.
pub open spec fn attributes(map: Map<Seq<char>, String>) -> Map<Seq<char>, Seq<char>> {
    map.map_values(|v: String| v@)
}

/// Reads attribute entries of the form `key=value` into a map from key to
/// value.
pub fn parse_txt_record(txt: &[String]) -> (map: StringHashMap<String>)
    ensures
        attributes(map@) == txt_map(texts(txt@)),
{
    let mut map: StringHashMap<String> = StringHashMap::new();
    let mut i: usize = 0;
    proof {
        assert(texts(txt@).take(0) =~= Seq::<Seq<char>>::empty());
        assert(attributes(map@) =~= txt_map(texts(txt@).take(0)));
    }
    while i < txt.len()
        invariant
            i <= txt@.len(),
            attributes(map@) == txt_map(texts(txt@).take(i as int)),
        decreases txt@.len() - i,
    {
        let ghost before = map@;
        proof {
            assert(texts(txt@).take(i + 1).drop_last() =~= texts(txt@).take(i as int));
            assert(texts(txt@).take(i + 1).last() == txt@[i as int]@);
        }
        match split_key_value(txt[i].as_str()) {
            Some((key, value)) => {
                map.insert(key, value);
                proof {
                    assert(attributes(map@) =~= attributes(before).insert(key@, value@));
                }
            },
            None => {},
        }
        i += 1;
    }
    proof {
        assert(texts(txt@).take(i as int) =~= texts(txt@));
    }
    map
}

fn entry_of(key: &str, value: &str) -> (entry: String)
    ensures
        entry@ == txt_entry(key@, value@),
{
    proof {
        reveal_strlit("=");
    }
    let mut entry = key.to_owned();
    entry.append("=");
    entry.append(value);
    assert(entry@ =~= txt_entry(key@, value@));
    entry
}

/// The attribute entries by which a peer on the platform called `platform`
/// announces itself.
pub fn build_txt_records_for(
    peer_id: &str,
    peer_name: &str,
    instance_name: &str,
    platform: &str,
) -> (txt: Vec<String>)
    ensures
        texts(txt@) == txt_records(peer_id@, peer_name@, instance_name@, platform@),
{
    let mut txt: Vec<String> = Vec::new();
    txt.push(entry_of(TXT_KEY_PEER_ID, peer_id));
    txt.push(entry_of(TXT_KEY_PEER_NAME, peer_name));
    txt.push(entry_of(TXT_KEY_INSTANCE, instance_name));
    txt.push(entry_of(TXT_KEY_PLATFORM, platform));
    txt.push(entry_of(TXT_KEY_VERSION, PROTOCOL_VERSION));
    assert(texts(txt@) =~= txt_records(peer_id@, peer_name@, instance_name@, platform@));
    txt
}

/// The attribute entries by which a peer on this platform announces itself.
pub fn build_txt_records(peer_id: &str, peer_name: &str, instance_name: &str) -> (txt: Vec<String>)
    ensures
        exists|platform: Seq<char>|
            texts(txt@) == txt_records(peer_id@, peer_name@, instance_name@, platform),
{
    let platform = platform_name();
    build_txt_records_for(peer_id, peer_name, instance_name, platform.as_str())
}

} // verus!
