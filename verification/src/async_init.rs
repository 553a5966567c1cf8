//! The names and the caching that the `async_init` attribute gives a function.

use vstd::prelude::*;

verus! {

/// What `str::to_uppercase` gives for `s`.
pub uninterp spec fn uppercase(s: Seq<char>) -> Seq<char>;

/// Whether every character of `s` is ASCII.
pub open spec fn all_ascii(s: Seq<char>) -> bool {
    forall|i: int| 0 <= i < s.len() ==> (#[trigger] s[i] as u32) < 128
}

/// The ASCII uppercase of `c`.
pub open spec fn ascii_upper(c: char) -> char {
    if 'a' <= c <= 'z' {
        ((c as u32) - 32) as char
    } else {
        c
    }
}

/// `s` in uppercase; a wrapper of `str::to_uppercase`, which the standard library
/// documents as mapping each character to its Unicode uppercase, so that ASCII letters
/// become their capitals and other ASCII characters stay as they are.
#[verifier::external_body]
fn to_uppercase(s: &str) -> (r: String)
    ensures
        r@ == uppercase(s@),
        all_ascii(s@) ==> r@ == s@.map_values(|c: char| ascii_upper(c)),
{
    s.to_uppercase()
}

/// The first group that the regular expression `pattern` captures in `text`, if the
/// pattern compiles and matches.
pub uninterp spec fn regex_first_capture(pattern: Seq<char>, text: Seq<char>) -> Option<
    Seq<char>,
>;

/// The first captured group of the first match of `pattern` in `text`; a wrapper of
/// `regex::Regex::new`, `Regex::captures` and `Captures::get(1)`, whose matches are
/// slices of `text`.
#[verifier::external_body]
fn first_capture(pattern: &str, text: &str) -> (r: Option<String>)
    ensures
        r matches Some(c) ==> regex_first_capture(pattern@, text@) == Some(c@),
        r is None ==> regex_first_capture(pattern@, text@) is None,
        r matches Some(c) ==> exists|i: int|
            0 <= i && i + c@.len() <= text@.len() && #[trigger] text@.subrange(
                i,
                i + c@.len(),
            ) == c@,
{
    let re = regex::Regex::new(pattern).ok()?;
    let caps = re.captures(text)?;
    match caps.get(1) {
        Some(m) => Some(m.as_str().to_string()),
        None => None,
    }
}

/// The pattern that finds the value type in the text of a function's return type.
pub open spec fn result_type_pattern() -> Seq<char> {
    "Result\\s*<\\s*([\\w:\\s]+),"@
}

/// Whether `c` is an ASCII letter or digit, or `_`: the characters of a Rust identifier.
pub open spec fn is_ident_char(c: char) -> bool {
    ||| 'a' <= c <= 'z'
    ||| 'A' <= c <= 'Z'
    ||| '0' <= c <= '9'
    ||| c == '_'
}

/// Whether the items of a regular-expression character class are plain: no negation, no
/// range, no nested class and no set operation, so that each item is `\w`, `\s`, or a
/// character standing for itself.
pub open spec fn plain_class(items: Seq<char>) -> bool {
    &&& items.len() > 0 ==> items[0] != '^'
    &&& forall|i: int|
        0 <= i < items.len() ==> {
            let c = #[trigger] items[i];
            c != '[' && c != ']' && c != '-' && c != '&' && c != '~'
        }
}

/// Whether item `i` of a plain character class admits `c`: `\w` admits the characters of
/// an identifier, `\s` a space or a tab, and an unescaped character itself.
pub open spec fn class_item_admits(items: Seq<char>, i: int, c: char) -> bool {
    &&& 0 <= i < items.len()
    &&& i == 0 || items[i - 1] != '\\'
    &&& if items[i] == '\\' {
        &&& i + 1 < items.len()
        &&& (items[i + 1] == 'w' && is_ident_char(c)) || (items[i + 1] == 's' && (c == ' ' || c
            == '\t'))
    } else {
        items[i] == c
    }
}

/// Whether a plain character class with the items `items` admits `c`.
pub open spec fn class_admits(items: Seq<char>, c: char) -> bool {
    plain_class(items) && exists|i: int| #[trigger] class_item_admits(items, i, c)
}

/// The value type is read as one or more characters of a class that admits every
/// character of a type path: the letters, digits and `_` of its identifiers, the `:` of
/// its separators, and blanks; so `Result<T, E>` gives `T` for any such `T`.
pub proof fn lemma_value_type_takes_type_paths()
    ensures
        exists|items: Seq<char>|
            result_type_pattern() == "Result\\s*<\\s*(["@ + items + "]+),"@ && forall|c: char|
                is_ident_char(c) || c == ':' || c == ' ' ==> #[trigger] class_admits(items, c),
{
    let items = "\\w:\\s"@;
    reveal_strlit("\\w:\\s");
    reveal_strlit("Result\\s*<\\s*([");
    reveal_strlit("]+),");
    reveal_strlit("Result\\s*<\\s*([\\w:\\s]+),");
    assert(result_type_pattern() =~= "Result\\s*<\\s*(["@ + items + "]+),"@);
    assert forall|c: char| is_ident_char(c) || c == ':' || c == ' ' implies #[trigger] class_admits(
        items,
        c,
    ) by {
        if is_ident_char(c) {
            assert(class_item_admits(items, 0, c));
        } else if c == ':' {
            assert(class_item_admits(items, 2, c));
        } else {
            assert(class_item_admits(items, 3, c));
        }
    }
}

/// The value type that the return type text `output` names: the first type argument of
/// its `Result`, or the message the attribute fails with when there is none.
pub fn result_type(output: &str) -> (r: Result<String, String>)
    ensures
        match regex_first_capture(result_type_pattern(), output@) {
            Some(t) => r matches Ok(s) && s@ == t,
            None => r matches Err(m) && m@ == "Can not extra result type from "@ + output@,
        },
{
    match first_capture("Result\\s*<\\s*([\\w:\\s]+),", output) {
        Some(t) => Ok(t),
        None => {
            let mut m = String::from_str("Can not extra result type from ");
            m.append(output);
            Err(m)
        },
    }
}

/// The name of the cache of the function `name`: its name in capitals, then `_VALUE`.
pub fn value_name(name: &str) -> (r: String)
    ensures
        r@ == uppercase(name@) + "_VALUE"@,
        all_ascii(name@) ==> r@ == name@.map_values(|c: char| ascii_upper(c)) + "_VALUE"@,
{
    let mut r = to_uppercase(name);
    r.append("_VALUE");
    r
}

/// The name that the undecorated body of the function `name` is kept under.
pub fn inner_fn_name(name: &str) -> (r: String)
    ensures
        r@ == name@ + "_orignal_fn"@,
{
    let mut r = String::from_str(name);
    r.append("_orignal_fn");
    r
}

/// The cache of a function's first successful result.
pub struct Memo<T> {
    value: Option<T>,
}

impl<T> Memo<T> {
    /// The cached result, if there is one.
    pub closed spec fn cached(&self) -> Option<T> {
        self.value
    }

    /// An empty cache.
    pub fn new() -> (m: Self)
        ensures
            m.cached() is None,
    {
        Memo { value: None }
    }

    /// The cached result, if there is one.
    pub fn get(&self) -> (r: Option<&T>)
        ensures
            match self.cached() {
                Some(v) => r == Some(&v),
                None => r is None,
            },
    {
        match &self.value {
            Some(v) => Some(v),
            None => None,
        }
    }

    /// Caches `v`.
    pub fn fill(&mut self, v: T)
        ensures
            final(self).cached() == Some(v),
    {
        self.value = Some(v);
    }

    /// Whether a call has to run the function's body: only while nothing is cached.
    pub fn needs_run(&self) -> (b: bool)
        ensures
            b == (self.cached() is None),
    {
        self.value.is_none()
    }

    /// Takes what the body of a call gave: a success is cached, replacing whatever was
    /// cached, and a failure is handed back and changes nothing. On an empty cache the call
    /// then answers as `call_spec` says.
    pub fn record<E>(&mut self, body: Result<T, E>) -> (r: Result<(), E>)
        ensures
            match body {
                Ok(v) => final(self).cached() == Some(v) && r is Ok,
                Err(e) => final(self).cached() == old(self).cached() && r == Err::<(), E>(e),
            },
            old(self).cached() is None ==> final(self).cached() == call_spec(
                old(self).cached(),
                body,
            ).0,
    {
        match body {
            Ok(v) => {
                self.value = Some(v);
                Ok(())
            },
            Err(e) => Err(e),
        }
    }
}

/// One call of a function with a per-thread cache: with a cached value the call answers
/// it and the body does not run; otherwise the body's success is cached and answered,
/// and its failure is answered and caches nothing. Gives the cache after the call and
/// the answer.
pub open spec fn call_spec<T, E>(cache: Option<T>, body: Result<T, E>) -> (Option<T>, Result<T, E>) {
    match cache {
        Some(v) => (cache, Ok(v)),
        None => match body {
            Ok(v) => (Some(v), Ok(v)),
            Err(e) => (None, Err(e)),
        },
    }
}

/// Calls made one after another on one thread, where `bodies[i]` is what the body would
/// give on call `i`: the cache after them and their answers.
pub open spec fn calls_spec<T, E>(cache: Option<T>, bodies: Seq<Result<T, E>>) -> (
    Option<T>,
    Seq<Result<T, E>>,
)
    decreases bodies.len(),
{
    if bodies.len() == 0 {
        (cache, Seq::empty())
    } else {
        let (c, answers) = calls_spec(cache, bodies.drop_last());
        let (c2, a) = call_spec(c, bodies.last());
        (c2, answers.push(a))
    }
}

/// Once a value is cached, every later call answers it, whatever its body would give,
/// and the cache keeps it.
pub proof fn lemma_cached_value_answers<T, E>(v: T, bodies: Seq<Result<T, E>>)
    ensures
        calls_spec(Some(v), bodies).0 == Some(v),
        calls_spec(Some(v), bodies).1 == Seq::new(bodies.len(), |i: int| Ok::<T, E>(v)),
    decreases bodies.len(),
{
    if bodies.len() > 0 {
        lemma_cached_value_answers(v, bodies.drop_last());
    }
    assert(calls_spec(Some(v), bodies).1 =~= Seq::new(bodies.len(), |i: int| Ok::<T, E>(v)));
}

/// From an empty cache, the body runs on each call until one succeeds: the calls before
/// it answer their failures, that call and every later one answer its value.
pub proof fn lemma_first_success_is_kept<T, E>(bodies: Seq<Result<T, E>>, k: int)
    requires
        0 <= k < bodies.len(),
        bodies[k] is Ok,
        forall|i: int| 0 <= i < k ==> (#[trigger] bodies[i]) is Err,
    ensures
        forall|i: int| 0 <= i < k ==> #[trigger] calls_spec(None::<T>, bodies).1[i] == bodies[i],
        forall|i: int|
            k <= i < bodies.len() ==> #[trigger] calls_spec(None::<T>, bodies).1[i] == Ok::<
                T,
                E,
            >(bodies[k]->Ok_0),
        calls_spec(None::<T>, bodies).0 == Some(bodies[k]->Ok_0),
    decreases bodies.len(),
{
    let n = bodies.len();
    let t = bodies.drop_last();
    let prev = calls_spec(None::<T>, t);
    let all = calls_spec(None::<T>, bodies);
    lemma_calls_len(None::<T>, t);
    if n - 1 == k {
        assert forall|i: int| 0 <= i < t.len() implies (#[trigger] t[i]) is Err by {
            assert(t[i] == bodies[i]);
        }
        lemma_failures_keep_empty(t);
        assert(all.1 == prev.1.push(Ok::<T, E>(bodies[k]->Ok_0)));
        assert forall|i: int| 0 <= i < k implies #[trigger] all.1[i] == bodies[i] by {
            assert(all.1[i] == prev.1[i]);
            assert(t[i] == bodies[i]);
        }
    } else {
        assert(t[k] == bodies[k]);
        assert forall|i: int| 0 <= i < k implies (#[trigger] t[i]) is Err by {
            assert(t[i] == bodies[i]);
        }
        lemma_first_success_is_kept(t, k);
        assert(all.1 == prev.1.push(Ok::<T, E>(bodies[k]->Ok_0)));
        assert forall|i: int| 0 <= i < k implies #[trigger] all.1[i] == bodies[i] by {
            assert(all.1[i] == prev.1[i]);
            assert(t[i] == bodies[i]);
        }
        assert forall|i: int| k <= i < bodies.len() implies #[trigger] all.1[i] == Ok::<T, E>(
            bodies[k]->Ok_0,
        ) by {
            if i < n - 1 {
                assert(all.1[i] == prev.1[i]);
            }
        }
    }
}

/// Every call gives one answer.
proof fn lemma_calls_len<T, E>(cache: Option<T>, bodies: Seq<Result<T, E>>)
    ensures
        calls_spec(cache, bodies).1.len() == bodies.len(),
    decreases bodies.len(),
{
    if bodies.len() > 0 {
        lemma_calls_len(cache, bodies.drop_last());
    }
}

/// Failing calls on an empty cache answer their failures and leave the cache empty.
proof fn lemma_failures_keep_empty<T, E>(bodies: Seq<Result<T, E>>)
    requires
        forall|i: int| 0 <= i < bodies.len() ==> (#[trigger] bodies[i]) is Err,
    ensures
        calls_spec(None::<T>, bodies).0 is None,
        calls_spec(None::<T>, bodies).1 == bodies,
    decreases bodies.len(),
{
    if bodies.len() > 0 {
        let t = bodies.drop_last();
        assert forall|i: int| 0 <= i < t.len() implies (#[trigger] t[i]) is Err by {
            assert(t[i] == bodies[i]);
        }
        lemma_failures_keep_empty(t);
        assert(bodies[bodies.len() - 1] is Err);
        assert(calls_spec(None::<T>, bodies).1 =~= bodies);
    }
}

} // verus!
