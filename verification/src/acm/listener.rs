//! The decisions of the long-polling listener: first reads, the probe, change notices, and
//! which content is passed on to the subscribers.

use vstd::prelude::*;
use crate::text::{
    trim_spec, trimmed_equals, split_spec, chars_of, split_chars, is_blank, string_of, push_char,
    lacks, lemma_trim_keeps, lemma_split_append_plain, lemma_split_push_sep, lemma_split_extend,
};
use crate::keyed::{KeyView, KeyedList, key_view, lemma_map_of_lookup};
use super::digest::{md5_hex, compute_md5, percent_decode_spec, percent_decode_utf8, is_lower_hex};
use super::subscription::{AcmClient, keys_view, pending_subscribed};

verus! {

/// Separates the fields of one line of a probe or of a change notice.
pub const WORD_SEPARATOR: char = '\u{2}';

/// Ends each line of a probe or of a change notice.
pub const LINE_SEPARATOR: char = '\u{1}';

/// The content the service answers with when a configuration does not exist.
pub open spec fn not_exist_text() -> Seq<char> {
    "config data not exist"@
}

/// Whether `content`, trimmed, says that the configuration does not exist.
pub open spec fn is_not_exist(content: Seq<char>) -> bool {
    trim_spec(content) == not_exist_text()
}

/// Whether `content`, trimmed, says that the configuration does not exist.
pub fn content_is_not_exist(content: &str) -> (b: bool)
    ensures
        b == is_not_exist(content@),
{
    trimmed_equals(content, "config data not exist")
}

/// The digests of the configurations that the listener knows, by key.
pub open spec fn hashes_view(t: KeyedList<String>) -> Map<KeyView, Seq<char>> {
    t@.map_values(|h: String| h@)
}

/// Whether every digest the listener knows is 32 lowercase hexadecimal digits.
pub open spec fn digests_ok(t: KeyedList<String>) -> bool {
    forall|k: KeyView|
        #[trigger] hashes_view(t).contains_key(k) ==> hashes_view(t)[k].len() == 32 && forall|
            i: int,
        |
            0 <= i < hashes_view(t)[k].len() ==> is_lower_hex(#[trigger] hashes_view(t)[k][i])
}

/// Whether every key the listener knows a digest of has subscribers.
pub open spec fn table_subscribed<T>(c: AcmClient<T>, t: KeyedList<String>) -> bool {
    forall|k: KeyView| #[trigger] t@.contains_key(k) ==> c.sinks_map().contains_key(k)
}

/// What the listener does with the first read of a subscribed key: a failed read puts
/// the key back to wait, a configuration that does not exist is left out, and any other
/// content has its digest recorded.
pub fn initial_config_step<T>(
    client: &mut AcmClient<T>,
    table: &mut KeyedList<String>,
    key: (String, String),
    fetched: Option<String>,
)
    requires
        old(client).wf(),
        old(table).wf(),
    ensures
        final(client).wf(),
        final(table).wf(),
        final(client).sinks_map() == old(client).sinks_map(),
        final(client).is_listening() == old(client).is_listening(),
        final(client).inner == old(client).inner,
        digests_ok(*old(table)) ==> digests_ok(*final(table)),
        hashes_view(*final(table)) == first_read_spec(
            hashes_view(*old(table)),
            key_view(key),
            opt_view(fetched),
        ),
        pending_subscribed(*old(client)) && table_subscribed(*old(client), *old(table)) && old(
            client,
        ).sinks_map().contains_key(key_view(key)) ==> pending_subscribed(*final(client))
            && table_subscribed(*final(client), *final(table)),
        match fetched {
            None => {
                &&& final(client).pending() == old(client).pending().push(key_view(key))
                &&& final(table)@ == old(table)@
            },
            Some(c) => {
                &&& final(client).pending() == old(client).pending()
                &&& if is_not_exist(c@) {
                    final(table)@ == old(table)@
                } else {
                    hashes_view(*final(table)) == hashes_view(*old(table)).insert(
                        key_view(key),
                        md5_hex(c@),
                    )
                }
            },
        },
{
    match fetched {
        None => {
            client.requeue(key);
        },
        Some(c) => {
            if !content_is_not_exist(c.as_str()) {
                let h = compute_md5(c.as_str());
                let ghost hv = h@;
                table.insert(key, h);
                assert(hashes_view(*table) =~= hashes_view(*old(table)).insert(key_view(key), hv));
            }
        },
    }
    assert(digests_ok(*old(table)) ==> digests_ok(*table));
}

/// One line of a probe: data id, group id, digest and tenant, separated and ended.
pub open spec fn probe_line_spec(k: KeyView, hash: Seq<char>, tenant: Seq<char>) -> Seq<char> {
    k.0 + seq![WORD_SEPARATOR] + k.1 + seq![WORD_SEPARATOR] + hash + seq![WORD_SEPARATOR]
        + tenant + seq![LINE_SEPARATOR]
}

/// The probe that asks which of the known configurations changed: one line per entry, in
/// order.
pub open spec fn probe_spec(entries: Seq<((String, String), String)>, tenant: Seq<char>) -> Seq<
    char,
>
    decreases entries.len(),
{
    if entries.len() == 0 {
        Seq::<char>::empty()
    } else {
        probe_spec(entries.drop_last(), tenant) + probe_line_spec(
            key_view(entries.last().0),
            entries.last().1@,
            tenant,
        )
    }
}

/// The probe for the known configurations of `table`.
pub fn probe_update(table: &KeyedList<String>, tenant: &str) -> (r: String)
    ensures
        r@ == probe_spec(table.entries(), tenant@),
{
    let mut r = String::new();
    let n = table.len();
    let mut i: usize = 0;
    while i < n
        invariant
            n == table.entries().len(),
            i <= n,
            r@ == probe_spec(table.entries().take(i as int), tenant@),
        decreases n - i,
    {
        let k = table.key_at(i);
        let h = table.value_at(i);
        r.append(k.0.as_str());
        push_char(&mut r, WORD_SEPARATOR);
        r.append(k.1.as_str());
        push_char(&mut r, WORD_SEPARATOR);
        r.append(h.as_str());
        push_char(&mut r, WORD_SEPARATOR);
        r.append(tenant);
        push_char(&mut r, LINE_SEPARATOR);
        assert(table.entries().take(i + 1).drop_last() =~= table.entries().take(i as int));
        i = i + 1;
    }
    assert(table.entries().take(n as int) =~= table.entries());
    r
}

/// The key a line of a change notice names: its first two fields, unless the line is
/// blank or has fewer than two fields.
pub open spec fn key_of_line(line: Seq<char>) -> Option<KeyView> {
    if trim_spec(line).len() == 0 {
        None
    } else {
        let f = split_spec(line, WORD_SEPARATOR);
        if f.len() < 2 {
            None
        } else {
            Some((f[0], f[1]))
        }
    }
}

/// The keys that a sequence of lines names, in order.
pub open spec fn keys_of_lines(lines: Seq<Seq<char>>) -> Seq<KeyView>
    decreases lines.len(),
{
    if lines.len() == 0 {
        Seq::<KeyView>::empty()
    } else {
        let r = keys_of_lines(lines.drop_last());
        match key_of_line(lines.last()) {
            Some(k) => r.push(k),
            None => r,
        }
    }
}

/// The keys that a decoded change notice names, one per line that names one.
pub open spec fn notice_keys_spec(content: Seq<char>) -> Seq<KeyView> {
    keys_of_lines(split_spec(content, LINE_SEPARATOR))
}

/// The text of a percent-encoded change notice, if it decodes to UTF-8.
pub open spec fn decoded_notice(s: Seq<char>) -> Option<Seq<char>> {
    let b = percent_decode_spec(vstd::utf8::encode_utf8(s));
    if vstd::utf8::valid_utf8(b) {
        Some(vstd::utf8::decode_utf8(b))
    } else {
        None
    }
}

/// The keys that the service reports as changed in the answer `poll_result` to a probe,
/// or nothing when the answer does not decode.
pub fn changed_keys(poll_result: &str) -> (r: Option<Vec<(String, String)>>)
    ensures
        r is None <==> decoded_notice(poll_result@) is None,
        r matches Some(v) ==> keys_view(v@) == notice_keys_spec(decoded_notice(poll_result@)->Some_0),
{
    let content = match percent_decode_utf8(poll_result) {
        Some(c) => c,
        None => {
            return None;
        },
    };
    let v = chars_of(content.as_str());
    let lines = split_chars(v.as_slice(), LINE_SEPARATOR);
    let ghost sp = split_spec(v@, LINE_SEPARATOR);
    let mut keys: Vec<(String, String)> = Vec::new();
    let n = lines.len();
    let mut i: usize = 0;
    while i < n
        invariant
            n == lines@.len(),
            i <= n,
            crate::text::pieces_are(lines@, sp),
            keys_view(keys@) == keys_of_lines(sp.take(i as int)),
        decreases n - i,
    {
        assert(sp.take(i + 1).drop_last() =~= sp.take(i as int));
        assert(sp.take(i + 1).last() == sp[i as int]);
        let line = &lines[i];
        if !is_blank(line.as_slice()) {
            let fields = split_chars(line.as_slice(), WORD_SEPARATOR);
            if fields.len() >= 2 {
                let k = (string_of(fields[0].as_slice()), string_of(fields[1].as_slice()));
                let ghost before = keys@;
                keys.push(k);
                assert(keys_view(keys@) =~= keys_view(before).push(key_view(k)));
            }
        }
        i = i + 1;
    }
    assert(sp.take(n as int) =~= sp);
    Some(keys)
}

/// What the listener does when a key is reported as changed and its content was read:
/// a configuration that does not exist, or whose digest is the one already known, is not
/// passed on; other content has its digest recorded and is passed on to the subscribers.
pub open spec fn changed_step_spec(
    hashes: Map<KeyView, Seq<char>>,
    key: KeyView,
    content: Seq<char>,
) -> (Map<KeyView, Seq<char>>, Option<Seq<char>>) {
    if is_not_exist(content) {
        (hashes, None)
    } else if hashes[key] == md5_hex(content) {
        (hashes, None)
    } else {
        (hashes.insert(key, md5_hex(content)), Some(content))
    }
}

/// Handles the content read for a key reported as changed, and gives back what has to be
/// sent to the key's subscribers.
pub fn changed_config_step(table: &mut KeyedList<String>, key: (String, String), content: &str) -> (r:
    Option<String>)
    requires
        old(table).wf(),
        !is_not_exist(content@) ==> hashes_view(*old(table)).contains_key(key_view(key)),
    ensures
        final(table).wf(),
        digests_ok(*old(table)) ==> digests_ok(*final(table)),
        forall|k: KeyView|
            #[trigger] final(table)@.contains_key(k) ==> old(table)@.contains_key(k) || k
                == key_view(key),
        hashes_view(*final(table)) == changed_step_spec(
            hashes_view(*old(table)),
            key_view(key),
            content@,
        ).0,
        match r {
            Some(s) => changed_step_spec(
                hashes_view(*old(table)),
                key_view(key),
                content@,
            ).1 == Some(s@),
            None => changed_step_spec(hashes_view(*old(table)), key_view(key), content@).1 is None,
        },
{
    if content_is_not_exist(content) {
        return None;
    }
    let h = compute_md5(content);
    let same = match table.get(key.0.as_str(), key.1.as_str()) {
        Some(known) => *known == h,
        None => {
            assert(false);
            true
        },
    };
    if same {
        return None;
    }
    let ghost hv = h@;
    table.insert(key, h);
    assert(hashes_view(*table) =~= hashes_view(*old(table)).insert(key_view(key), hv));
    assert(digests_ok(*old(table)) ==> digests_ok(*table));
    Some(String::from_str(content))
}

/// A line of a probe without its line separator.
pub open spec fn line_body_spec(k: KeyView, hash: Seq<char>, tenant: Seq<char>) -> Seq<char> {
    k.0 + seq![WORD_SEPARATOR] + k.1 + seq![WORD_SEPARATOR] + hash + seq![WORD_SEPARATOR]
        + tenant
}

/// Whether an entry can be written on a probe line and read back: its data id and group
/// id hold neither separator, and its digest holds no line separator.
pub open spec fn probe_safe(e: ((String, String), String)) -> bool {
    &&& lacks(e.0.0@, WORD_SEPARATOR)
    &&& lacks(e.0.0@, LINE_SEPARATOR)
    &&& lacks(e.0.1@, WORD_SEPARATOR)
    &&& lacks(e.0.1@, LINE_SEPARATOR)
    &&& lacks(e.1@, LINE_SEPARATOR)
}

/// The keys of entries, in order.
pub open spec fn entry_keys(entries: Seq<((String, String), String)>) -> Seq<KeyView> {
    entries.map_values(|e: ((String, String), String)| key_view(e.0))
}

/// The bodies of the probe lines of entries, in order.
pub open spec fn line_bodies(entries: Seq<((String, String), String)>, tenant: Seq<char>) -> Seq<
    Seq<char>,
> {
    entries.map_values(
        |e: ((String, String), String)| line_body_spec(key_view(e.0), e.1@, tenant),
    )
}

proof fn lemma_line_key(k: KeyView, hash: Seq<char>, tenant: Seq<char>)
    requires
        lacks(k.0, WORD_SEPARATOR),
        lacks(k.1, WORD_SEPARATOR),
    ensures
        key_of_line(line_body_spec(k, hash, tenant)) == Some(k),
{
    let body = line_body_spec(k, hash, tenant);
    assert(body[k.0.len() as int] == WORD_SEPARATOR);
    lemma_trim_keeps(body, k.0.len() as int);
    let e = Seq::<char>::empty();
    lemma_split_append_plain(e, k.0, WORD_SEPARATOR);
    assert(e + k.0 =~= k.0);
    assert(split_spec(e, WORD_SEPARATOR) =~= seq![e]);
    assert(split_spec(k.0, WORD_SEPARATOR) =~= seq![k.0]);
    let x1 = k.0.push(WORD_SEPARATOR);
    lemma_split_push_sep(k.0, WORD_SEPARATOR);
    lemma_split_append_plain(x1, k.1, WORD_SEPARATOR);
    let x2 = x1 + k.1;
    assert(split_spec(x2, WORD_SEPARATOR) =~= seq![k.0, k.1]);
    lemma_split_push_sep(x2, WORD_SEPARATOR);
    let x3 = x2.push(WORD_SEPARATOR);
    assert(split_spec(x3, WORD_SEPARATOR) =~= seq![k.0, k.1, e]);
    let rest = hash + seq![WORD_SEPARATOR] + tenant;
    lemma_split_extend(x3, rest, WORD_SEPARATOR);
    assert(x3 + rest =~= body);
    assert(split_spec(body, WORD_SEPARATOR)[0] == k.0);
    assert(split_spec(body, WORD_SEPARATOR)[1] == k.1);
}

#[verifier::rlimit(40)]
proof fn lemma_probe_split(entries: Seq<((String, String), String)>, tenant: Seq<char>)
    requires
        forall|i: int| 0 <= i < entries.len() ==> probe_safe(#[trigger] entries[i]),
        lacks(tenant, LINE_SEPARATOR),
    ensures
        split_spec(probe_spec(entries, tenant), LINE_SEPARATOR) == line_bodies(
            entries,
            tenant,
        ).push(Seq::<char>::empty()),
    decreases entries.len(),
{
    if entries.len() == 0 {
        assert(line_bodies(entries, tenant).push(Seq::<char>::empty()) =~= seq![
            Seq::<char>::empty(),
        ]);
    } else {
        let t = entries.drop_last();
        assert forall|i: int| 0 <= i < t.len() implies probe_safe(#[trigger] t[i]) by {
            assert(t[i] == entries[i]);
        }
        lemma_probe_split(t, tenant);
        let last = entries.last();
        assert(probe_safe(entries[entries.len() - 1]));
        let body = line_body_spec(key_view(last.0), last.1@, tenant);
        let p0 = probe_spec(t, tenant);
        assert(lacks(body, LINE_SEPARATOR)) by {
            assert forall|i: int| 0 <= i < body.len() implies body[i] != LINE_SEPARATOR by {
                let a = last.0.0@.len() as int;
                let b = a + 1 + last.0.1@.len();
                let c = b + 1 + last.1@.len();
                if i < a {
                    assert(body[i] == last.0.0@[i]);
                } else if i == a {
                } else if i < b {
                    assert(body[i] == last.0.1@[i - a - 1]);
                } else if i == b {
                } else if i < c {
                    assert(body[i] == last.1@[i - b - 1]);
                } else if i == c {
                } else {
                    assert(body[i] == tenant[i - c - 1]);
                }
            }
        }
        lemma_split_append_plain(p0, body, LINE_SEPARATOR);
        lemma_split_push_sep(p0 + body, LINE_SEPARATOR);
        assert(probe_spec(entries, tenant) =~= (p0 + body).push(LINE_SEPARATOR));
        assert(line_bodies(t, tenant).push(body) =~= line_bodies(entries, tenant));
        assert(Seq::<char>::empty() + body =~= body);
    }
}

proof fn lemma_keys_of_bodies(entries: Seq<((String, String), String)>, tenant: Seq<char>)
    requires
        forall|i: int| 0 <= i < entries.len() ==> probe_safe(#[trigger] entries[i]),
    ensures
        keys_of_lines(line_bodies(entries, tenant)) == entry_keys(entries),
    decreases entries.len(),
{
    if entries.len() == 0 {
        assert(entry_keys(entries) =~= Seq::<KeyView>::empty());
    } else {
        let t = entries.drop_last();
        assert forall|i: int| 0 <= i < t.len() implies probe_safe(#[trigger] t[i]) by {
            assert(t[i] == entries[i]);
        }
        lemma_keys_of_bodies(t, tenant);
        assert(probe_safe(entries[entries.len() - 1]));
        let last = entries.last();
        lemma_line_key(key_view(last.0), last.1@, tenant);
        assert(line_bodies(entries, tenant).drop_last() =~= line_bodies(t, tenant));
        assert(entry_keys(entries) =~= entry_keys(t).push(key_view(last.0)));
    }
}

/// A probe names exactly its entries' keys, in order: reading a probe back as a change
/// notice gives the key of every entry, as long as the keys hold neither separator and
/// neither the digests nor the tenant hold a line separator.
pub proof fn lemma_probe_notice_roundtrip(entries: Seq<((String, String), String)>, tenant: Seq<char>)
    requires
        forall|i: int| 0 <= i < entries.len() ==> probe_safe(#[trigger] entries[i]),
        lacks(tenant, LINE_SEPARATOR),
    ensures
        notice_keys_spec(probe_spec(entries, tenant)) == entry_keys(entries),
{
    lemma_probe_split(entries, tenant);
    let b = line_bodies(entries, tenant);
    let e = Seq::<char>::empty();
    assert(b.push(e).drop_last() =~= b);
    assert(trim_spec(e).len() == 0);
    lemma_keys_of_bodies(entries, tenant);
}

/// A change is passed on once: right after content was passed on for a key, the same
/// content for that key is not passed on again and changes nothing.
pub proof fn lemma_changed_step_once(
    hashes: Map<KeyView, Seq<char>>,
    key: KeyView,
    content: Seq<char>,
)
    requires
        changed_step_spec(hashes, key, content).1 is Some,
    ensures
        changed_step_spec(changed_step_spec(hashes, key, content).0, key, content) == (
            changed_step_spec(hashes, key, content).0,
            None::<Seq<char>>,
        ),
{
}

/// Content that exists and whose digest differs from the one recorded for its own key is
/// passed on and its digest recorded, whatever the other keys hold.
pub proof fn lemma_change_of_own_key_passed_on(
    hashes: Map<KeyView, Seq<char>>,
    key: KeyView,
    content: Seq<char>,
)
    requires
        !is_not_exist(content),
        hashes.contains_key(key),
        hashes[key] != md5_hex(content),
    ensures
        changed_step_spec(hashes, key, content) == (
            hashes.insert(key, md5_hex(content)),
            Some(content),
        ),
{
}

/// Whether content is passed on, and the digests after it, depend only on the digest
/// recorded for its own key: two listeners that record the same digest for the key pass
/// on the same, and change only that key.
pub proof fn lemma_passing_on_depends_on_own_key(
    h1: Map<KeyView, Seq<char>>,
    h2: Map<KeyView, Seq<char>>,
    key: KeyView,
    content: Seq<char>,
)
    requires
        h1.contains_key(key),
        h2.contains_key(key),
        h1[key] == h2[key],
    ensures
        changed_step_spec(h1, key, content).1 == changed_step_spec(h2, key, content).1,
        changed_step_spec(h1, key, content).0 == h1.insert(key, changed_step_spec(h1, key, content).0[key]),
        changed_step_spec(h1, key, content).0[key] == changed_step_spec(h2, key, content).0[key],
{
    assert(h1.insert(key, h1[key]) =~= h1);
}

/// Content whose digest is the one recorded for its key is not passed on, and changes
/// nothing; so a first read, followed by a notice whose content did not change, sends
/// nothing to the subscribers.
pub proof fn lemma_unchanged_content_not_passed(
    hashes: Map<KeyView, Seq<char>>,
    key: KeyView,
    content: Seq<char>,
)
    requires
        hashes.contains_key(key),
        hashes[key] == md5_hex(content),
    ensures
        changed_step_spec(hashes, key, content) == (hashes, None::<Seq<char>>),
{
}

/// Whether no key the listener knows holds a separator.
pub open spec fn keys_plain(t: KeyedList<String>) -> bool {
    forall|k: KeyView|
        #[trigger] t@.contains_key(k) ==> lacks(k.0, WORD_SEPARATOR) && lacks(k.0, LINE_SEPARATOR)
            && lacks(k.1, WORD_SEPARATOR) && lacks(k.1, LINE_SEPARATOR)
}

/// The probe the listener sends names exactly the keys it knows, in order: read back as a
/// change notice it gives every known key, when no key holds a separator and the tenant
/// holds no line separator (the digests, being hexadecimal, never do).
pub proof fn lemma_listener_probe_reads_back(table: KeyedList<String>, tenant: Seq<char>)
    requires
        table.wf(),
        digests_ok(table),
        keys_plain(table),
        lacks(tenant, LINE_SEPARATOR),
    ensures
        notice_keys_spec(probe_spec(table.entries(), tenant)) == entry_keys(table.entries()),
{
    let es = table.entries();
    assert forall|i: int| 0 <= i < es.len() implies probe_safe(#[trigger] es[i]) by {
        let k = key_view(es[i].0);
        lemma_map_of_lookup(es, k);
        assert(table@.contains_key(k));
        assert(table@[k] == es[i].1);
        assert(hashes_view(table).contains_key(k));
        assert(hashes_view(table)[k] == es[i].1@);
        assert forall|j: int| 0 <= j < es[i].1@.len() implies es[i].1@[j] != LINE_SEPARATOR by {
            assert(is_lower_hex(hashes_view(table)[k][j]));
        }
    }
    lemma_probe_notice_roundtrip(es, tenant);
}

/// The listener's lookups of a key it knows succeed: when every key with a digest has
/// subscribers, a key with a digest has sinks to send its changes to.
pub proof fn lemma_known_keys_have_sinks<T>(c: AcmClient<T>, t: KeyedList<String>, k: KeyView)
    requires
        table_subscribed(c, t),
        t@.contains_key(k),
    ensures
        c.sinks_map().contains_key(k),
{
}

/// What the listener's first read of `k` does to the digests: a failed read or a
/// configuration that does not exist changes nothing, other content has its digest
/// recorded.
pub open spec fn first_read_spec(
    h: Map<KeyView, Seq<char>>,
    k: KeyView,
    fetched: Option<Seq<char>>,
) -> Map<KeyView, Seq<char>> {
    match fetched {
        None => h,
        Some(c) => if is_not_exist(c) {
            h
        } else {
            h.insert(k, md5_hex(c))
        },
    }
}

/// The view of an optional string.
pub open spec fn opt_view(o: Option<String>) -> Option<Seq<char>> {
    match o {
        Some(s) => Some(s@),
        None => None,
    }
}

/// What happens to the listener: a first read of a newly subscribed key, or the content
/// read for a key a change notice named.
pub ghost enum ListenEvent {
    FirstRead(KeyView, Option<Seq<char>>),
    Change(KeyView, Seq<char>),
}

/// The key an event is about.
pub open spec fn event_key(e: ListenEvent) -> KeyView {
    match e {
        ListenEvent::FirstRead(k, _) => k,
        ListenEvent::Change(k, _) => k,
    }
}

/// One event: the digests after it, and what it passes on to the key's subscribers.
pub open spec fn event_step(h: Map<KeyView, Seq<char>>, e: ListenEvent) -> (
    Map<KeyView, Seq<char>>,
    Option<Seq<char>>,
) {
    match e {
        ListenEvent::FirstRead(k, f) => (first_read_spec(h, k, f), None),
        ListenEvent::Change(k, c) => changed_step_spec(h, k, c),
    }
}

/// The digests after a run of events from the digests `h`.
pub open spec fn run_listener(h: Map<KeyView, Seq<char>>, events: Seq<ListenEvent>) -> Map<
    KeyView,
    Seq<char>,
>
    decreases events.len(),
{
    if events.len() == 0 {
        h
    } else {
        event_step(run_listener(h, events.drop_last()), events.last()).0
    }
}

/// The digests just before event `i` of a run.
pub open spec fn state_before(
    h: Map<KeyView, Seq<char>>,
    events: Seq<ListenEvent>,
    i: int,
) -> Map<KeyView, Seq<char>> {
    run_listener(h, events.take(i))
}

/// What event `i` of a run passes on.
pub open spec fn delivery(h: Map<KeyView, Seq<char>>, events: Seq<ListenEvent>, i: int) -> Option<
    Seq<char>,
> {
    event_step(state_before(h, events, i), events[i]).1
}

/// Whether every changed content of a run that exists is for a key whose digest is known
/// when it comes; on any other the listener stops, as `changed_config_step` requires.
pub open spec fn run_ok(h: Map<KeyView, Seq<char>>, events: Seq<ListenEvent>) -> bool {
    forall|i: int|
        0 <= i < events.len() ==> match #[trigger] events[i] {
            ListenEvent::Change(k, c) => !is_not_exist(c) ==> state_before(h, events, i).contains_key(k),
            ListenEvent::FirstRead(_, _) => true,
        }
}

/// Whether event `m` of a run records a new digest for `k`: a first read of `k` with
/// content, or content for `k` passed on.
pub open spec fn records(h: Map<KeyView, Seq<char>>, events: Seq<ListenEvent>, m: int, k: KeyView) -> bool {
    event_key(events[m]) == k && match events[m] {
        ListenEvent::FirstRead(_, Some(c)) => !is_not_exist(c),
        ListenEvent::FirstRead(_, None) => false,
        ListenEvent::Change(_, _) => delivery(h, events, m) is Some,
    }
}

proof fn lemma_state_step(h: Map<KeyView, Seq<char>>, events: Seq<ListenEvent>, i: int)
    requires
        0 <= i < events.len(),
    ensures
        state_before(h, events, i + 1) == event_step(state_before(h, events, i), events[i]).0,
{
    assert(events.take(i + 1).drop_last() =~= events.take(i));
    assert(events.take(i + 1).last() == events[i]);
}

/// Content is passed on only when its digest differs from the one recorded for its key
/// just before (that of its first read or of the content last passed on), and that digest
/// then becomes the recorded one; content saying the configuration does not exist is
/// never passed on. This holds of any run, with first reads of keys subscribed at any
/// time in between.
pub proof fn lemma_listener_passes_on_changes_only(
    h: Map<KeyView, Seq<char>>,
    events: Seq<ListenEvent>,
    i: int,
)
    requires
        0 <= i < events.len(),
        delivery(h, events, i) is Some,
    ensures
        events[i] is Change,
        !is_not_exist(delivery(h, events, i)->Some_0),
        md5_hex(delivery(h, events, i)->Some_0) != state_before(h, events, i)[event_key(
            events[i],
        )],
        state_before(h, events, i + 1)[event_key(events[i])] == md5_hex(
            delivery(h, events, i)->Some_0,
        ),
{
    lemma_state_step(h, events, i);
}

proof fn lemma_record_kept(
    h: Map<KeyView, Seq<char>>,
    events: Seq<ListenEvent>,
    i: int,
    j: int,
    k: KeyView,
)
    requires
        0 <= i <= j <= events.len(),
        forall|m: int| i <= m < j ==> !#[trigger] records(h, events, m, k),
    ensures
        state_before(h, events, j).contains_key(k) == state_before(h, events, i).contains_key(k),
        state_before(h, events, j)[k] == state_before(h, events, i)[k],
    decreases j - i,
{
    if j > i {
        lemma_record_kept(h, events, i, j - 1, k);
        lemma_state_step(h, events, j - 1);
        assert(!records(h, events, j - 1, k));
    }
}

/// Two contents passed on for the same key with no new digest recorded for it in between
/// differ, and so do their digests: a subscriber never gets the same content twice in a
/// row unless the key was read afresh in between.
pub proof fn lemma_consecutive_deliveries_differ(
    h: Map<KeyView, Seq<char>>,
    events: Seq<ListenEvent>,
    i: int,
    j: int,
)
    requires
        0 <= i < j < events.len(),
        delivery(h, events, i) is Some,
        delivery(h, events, j) is Some,
        event_key(events[i]) == event_key(events[j]),
        forall|m: int| i < m < j ==> !#[trigger] records(h, events, m, event_key(events[i])),
    ensures
        md5_hex(delivery(h, events, i)->Some_0) != md5_hex(delivery(h, events, j)->Some_0),
        delivery(h, events, i)->Some_0 != delivery(h, events, j)->Some_0,
{
    let k = event_key(events[i]);
    lemma_listener_passes_on_changes_only(h, events, i);
    lemma_listener_passes_on_changes_only(h, events, j);
    lemma_record_kept(h, events, i + 1, j, k);
}

/// A listener round keeps the keys it knows subscribed, and everything it passes on is
/// for a subscribed key: when the keys known at the start and the keys it reads first
/// all have subscribers, and every existing changed content is for a known key, then the
/// keys known at every point have subscribers, and so has the key of every content
/// passed on, so that its sinks are found.
pub proof fn lemma_round_keeps_subscribed(
    h: Map<KeyView, Seq<char>>,
    events: Seq<ListenEvent>,
    sinks: Set<KeyView>,
)
    requires
        h.dom().subset_of(sinks),
        forall|i: int|
            0 <= i < events.len() && (#[trigger] events[i]) is FirstRead ==> sinks.contains(
                event_key(events[i]),
            ),
        run_ok(h, events),
    ensures
        forall|i: int| 0 <= i <= events.len() ==> #[trigger] state_before(h, events, i).dom().subset_of(sinks),
        forall|i: int|
            0 <= i < events.len() && (#[trigger] delivery(h, events, i)) is Some ==> sinks.contains(
                event_key(events[i]),
            ),
{
    assert forall|i: int| 0 <= i <= events.len() implies #[trigger] state_before(h, events, i).dom().subset_of(sinks) by {
        lemma_dom_in_sinks(h, events, sinks, i);
    }
    assert forall|i: int|
        0 <= i < events.len() && (#[trigger] delivery(h, events, i)) is Some implies sinks.contains(
            event_key(events[i]),
        ) by {
        lemma_listener_passes_on_changes_only(h, events, i);
        lemma_dom_in_sinks(h, events, sinks, i);
        let e = events[i];
        assert(run_ok(h, events));
        match e {
            ListenEvent::Change(k, c) => {
                assert(state_before(h, events, i).contains_key(k));
            },
            ListenEvent::FirstRead(_, _) => {},
        }
    }
}

proof fn lemma_dom_in_sinks(
    h: Map<KeyView, Seq<char>>,
    events: Seq<ListenEvent>,
    sinks: Set<KeyView>,
    i: int,
)
    requires
        h.dom().subset_of(sinks),
        forall|m: int|
            0 <= m < events.len() && (#[trigger] events[m]) is FirstRead ==> sinks.contains(
                event_key(events[m]),
            ),
        run_ok(h, events),
        0 <= i <= events.len(),
    ensures
        state_before(h, events, i).dom().subset_of(sinks),
    decreases i,
{
    if i == 0 {
        assert(events.take(0) =~= Seq::<ListenEvent>::empty());
    } else {
        lemma_dom_in_sinks(h, events, sinks, i - 1);
        lemma_state_step(h, events, i - 1);
        let e = events[i - 1];
        assert(run_ok(h, events));
        match e {
            ListenEvent::Change(k, c) => {
                if !is_not_exist(c) {
                    assert(state_before(h, events, i - 1).contains_key(k));
                }
            },
            ListenEvent::FirstRead(k, f) => {
                assert(sinks.contains(k));
            },
        }
    }
}

} // verus!
