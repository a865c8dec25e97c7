use vstd::prelude::*;

use crate::error::{Error, ErrorView};
use crate::text::{
    is_digit, lemma_nat_to_decimal, lemma_parse_i64_of_decimal, chars_of, find_char, find_in, i64_to_decimal, int_to_decimal, parse_i64, parse_i64_spec,
    push_str, str_eq, string_from_range, string_from_str,
};

verus! {

// ---------------------------------------------------------------------------
// Argument values and maps
// ---------------------------------------------------------------------------

/// The value of one `key=value` argument, as far as the library decides it.
#[derive(Debug, Clone, PartialEq)]
pub enum ArgValue {
    /// `true` or `false`.
    Bool(bool),
    /// A whole number written exactly as it prints.
    Integer(i64),
    /// Text to be passed on as a string.
    String(String),
    /// Text that becomes a JSON number if it reads as a finite floating-point
    /// value, and a string otherwise; that reading is left to the caller.
    FloatCandidate(String),
}

/// The mathematical value of an [`ArgValue`].
pub enum ArgValueView {
    Bool(bool),
    Integer(i64),
    String(Seq<char>),
    FloatCandidate(Seq<char>),
}

impl View for ArgValue {
    type V = ArgValueView;

    open spec fn view(&self) -> ArgValueView {
        match self {
            ArgValue::Bool(b) => ArgValueView::Bool(*b),
            ArgValue::Integer(n) => ArgValueView::Integer(*n),
            ArgValue::String(s) => ArgValueView::String(s@),
            ArgValue::FloatCandidate(s) => ArgValueView::FloatCandidate(s@),
        }
    }
}

/// The map that a list of entries describes, later entries winning.
pub open spec fn entries_map(s: Seq<(String, ArgValue)>) -> Map<Seq<char>, ArgValueView>
    decreases s.len(),
{
    if s.len() == 0 {
        Map::empty()
    } else {
        entries_map(s.drop_last()).insert(s.last().0@, s.last().1@)
    }
}

/// Whether no key occurs twice among the entries.
pub open spec fn keys_distinct(s: Seq<(String, ArgValue)>) -> bool {
    forall|i: int, j: int| 0 <= i < j < s.len() ==> s[i].0@ != s[j].0@
}

proof fn lemma_entries_map_dom(s: Seq<(String, ArgValue)>, k: Seq<char>)
    ensures
        entries_map(s).dom().contains(k) <==> exists|i: int| 0 <= i < s.len() && s[i].0@ == k,
    decreases s.len(),
{
    if s.len() > 0 {
        lemma_entries_map_dom(s.drop_last(), k);
        if exists|i: int| 0 <= i < s.len() - 1 && s.drop_last()[i].0@ == k {
            let i = choose|i: int| 0 <= i < s.len() - 1 && s.drop_last()[i].0@ == k;
            assert(s[i].0@ == k);
        }
        if exists|i: int| 0 <= i < s.len() && s[i].0@ == k {
            let i = choose|i: int| 0 <= i < s.len() && s[i].0@ == k;
            if i < s.len() - 1 {
                assert(s.drop_last()[i].0@ == k);
            }
        }
    }
}

proof fn lemma_entries_map_value(s: Seq<(String, ArgValue)>, i: int)
    requires
        keys_distinct(s),
        0 <= i < s.len(),
    ensures
        entries_map(s).dom().contains(s[i].0@),
        entries_map(s)[s[i].0@] == s[i].1@,
    decreases s.len(),
{
    lemma_entries_map_dom(s, s[i].0@);
    if i < s.len() - 1 {
        assert(keys_distinct(s.drop_last()));
        lemma_entries_map_value(s.drop_last(), i);
        assert(s.drop_last()[i] == s[i]);
        assert(s.last().0@ != s[i].0@);
    }
}

/// Arguments given as `key=value`, each key at most once; a later value for
/// a key replaces an earlier one.
#[derive(Debug)]
pub struct ArgMap {
    entries: Vec<(String, ArgValue)>,
}

impl View for ArgMap {
    type V = Map<Seq<char>, ArgValueView>;

    closed spec fn view(&self) -> Map<Seq<char>, ArgValueView> {
        entries_map(self.entries@)
    }
}

impl ArgMap {
    #[verifier::type_invariant]
    closed spec fn wf(self) -> bool {
        keys_distinct(self.entries@)
    }

    /// An empty map.
    pub fn new() -> (m: Self)
        ensures
            m@ == Map::<Seq<char>, ArgValueView>::empty(),
    {
        ArgMap { entries: Vec::new() }
    }

    /// The number of keys.
    pub fn len(&self) -> (n: usize)
        ensures
            n == self@.len(),
    {
        proof {
            use_type_invariant(self);
            self.lemma_len();
        }
        self.entries.len()
    }

    proof fn lemma_len(&self)
        requires
            keys_distinct(self.entries@),
        ensures
            self@.len() == self.entries@.len(),
            self@.dom().finite(),
    {
        lemma_entries_map_len(self.entries@);
    }

    /// The position of `key` among the entries.
    fn position(&self, key: &str) -> (r: Option<usize>)
        ensures
            match r {
                Some(i) => i < self.entries@.len() && self.entries@[i as int].0@ == key@,
                None => forall|i: int|
                    0 <= i < self.entries@.len() ==> self.entries@[i].0@ != key@,
            },
    {
        let mut i: usize = 0;
        while i < self.entries.len()
            invariant
                i <= self.entries@.len(),
                forall|j: int| 0 <= j < i ==> self.entries@[j].0@ != key@,
            decreases self.entries@.len() - i,
        {
            if str_eq(self.entries[i].0.as_str(), key) {
                return Some(i);
            }
            i = i + 1;
        }
        None
    }

    /// The value stored under `key`.
    pub fn get(&self, key: &str) -> (r: Option<&ArgValue>)
        ensures
            match r {
                Some(v) => self@.dom().contains(key@) && self@[key@] == v@,
                None => !self@.dom().contains(key@),
            },
    {
        proof {
            use_type_invariant(self);
            lemma_entries_map_dom(self.entries@, key@);
        }
        match self.position(key) {
            Some(i) => {
                proof {
                    lemma_entries_map_value(self.entries@, i as int);
                }
                Some(&self.entries[i].1)
            },
            None => None,
        }
    }

    /// Stores `value` under `key`, replacing what was stored there.
    pub fn insert(&mut self, key: String, value: ArgValue)
        ensures
            final(self)@ == old(self)@.insert(key@, value@),
    {
        proof {
            use_type_invariant(&*self);
        }
        let ghost old_entries = self.entries@;
        match self.position(key.as_str()) {
            Some(i) => {
                let ghost k = key@;
                let mut entries = Vec::new();
                std::mem::swap(&mut entries, &mut self.entries);
                entries.set(i, (key, value));
                proof {
                    let s = entries@;
                    assert(keys_distinct(s)) by {
                        assert forall|a: int, b: int| 0 <= a < b < s.len() implies s[a].0@ != s[b].0@ by {
                            if a != i && b != i {
                                assert(s[a] == old_entries[a] && s[b] == old_entries[b]);
                            } else if a == i {
                                assert(s[b] == old_entries[b]);
                            } else {
                                assert(s[a] == old_entries[a]);
                            }
                        }
                    }
                    lemma_entries_map_update(old_entries, i as int, s);
                }
                self.entries = entries;
            },
            None => {
                let mut entries = Vec::new();
                std::mem::swap(&mut entries, &mut self.entries);
                entries.push((key, value));
                proof {
                    let s = entries@;
                    assert(s.drop_last() =~= old_entries);
                    assert(keys_distinct(s)) by {
                        assert forall|a: int, b: int| 0 <= a < b < s.len() implies s[a].0@ != s[b].0@ by {
                            assert(s[a] == old_entries[a]);
                            if b < s.len() - 1 {
                                assert(s[b] == old_entries[b]);
                            }
                        }
                    }
                }
                self.entries = entries;
            },
        }
    }

    /// The stored keys and values, each key once.
    pub fn entries(&self) -> (r: &Vec<(String, ArgValue)>)
        ensures
            entries_map(r@) == self@,
            keys_distinct(r@),
    {
        proof {
            use_type_invariant(self);
        }
        &self.entries
    }
}

proof fn lemma_entries_map_len(s: Seq<(String, ArgValue)>)
    requires
        keys_distinct(s),
    ensures
        entries_map(s).dom().finite(),
        entries_map(s).len() == s.len(),
    decreases s.len(),
{
    if s.len() > 0 {
        assert(keys_distinct(s.drop_last()));
        lemma_entries_map_len(s.drop_last());
        lemma_entries_map_dom(s.drop_last(), s.last().0@);
        if entries_map(s.drop_last()).dom().contains(s.last().0@) {
            let i = choose|i: int| 0 <= i < s.len() - 1 && s.drop_last()[i].0@ == s.last().0@;
            assert(s[i] == s.drop_last()[i]);
        }
    }
}

proof fn lemma_entries_map_update(s: Seq<(String, ArgValue)>, i: int, t: Seq<(String, ArgValue)>)
    requires
        keys_distinct(s),
        keys_distinct(t),
        0 <= i < s.len(),
        t.len() == s.len(),
        t[i].0@ == s[i].0@,
        forall|j: int| 0 <= j < s.len() && j != i ==> t[j] == s[j],
    ensures
        entries_map(t) == entries_map(s).insert(t[i].0@, t[i].1@),
{
    let m = entries_map(s).insert(t[i].0@, t[i].1@);
    assert forall|k: Seq<char>| #[trigger] entries_map(t).dom().contains(k) == m.dom().contains(k) by {
        lemma_entries_map_dom(s, k);
        lemma_entries_map_dom(t, k);
        if exists|j: int| 0 <= j < s.len() && s[j].0@ == k {
            let j = choose|j: int| 0 <= j < s.len() && s[j].0@ == k;
            if j != i {
                assert(t[j].0@ == k);
            } else {
                assert(t[i].0@ == k);
            }
        }
        if exists|j: int| 0 <= j < t.len() && t[j].0@ == k {
            let j = choose|j: int| 0 <= j < t.len() && t[j].0@ == k;
            if j != i {
                assert(s[j].0@ == k);
            }
        }
    }
    assert forall|k: Seq<char>| #[trigger] entries_map(t).dom().contains(k) implies entries_map(t)[k] == m[k] by {
        lemma_entries_map_dom(t, k);
        let j = choose|j: int| 0 <= j < t.len() && t[j].0@ == k;
        lemma_entries_map_value(t, j);
        if j != i {
            lemma_entries_map_value(s, j);
            assert(s[j] == t[j]);
        }
    }
    assert(entries_map(t) =~= m);
}

// ---------------------------------------------------------------------------
// Parsing `key=value` arguments
// ---------------------------------------------------------------------------

/// Splits `arg` at its first `=`.
pub open spec fn split_pair(arg: Seq<char>) -> Option<(Seq<char>, Seq<char>)> {
    match find_char(arg, '=') {
        Some(i) => Some((arg.subrange(0, i), arg.subrange(i + 1, arg.len() as int))),
        None => None,
    }
}

/// Whether `value` is a whole number written exactly as `n` prints.
pub open spec fn is_canonical_integer(value: Seq<char>, n: i64) -> bool {
    parse_i64_spec(value) == Some(n) && int_to_decimal(n as int) == value
}

/// How a value is typed for tool calls made with `ArgumentParser`: `true` and
/// `false` are booleans, whole numbers written as they print are integers,
/// and everything else is left to the floating-point reading.
pub open spec fn value_type_spec(value: Seq<char>) -> ArgValueView {
    if value == "true"@ {
        ArgValueView::Bool(true)
    } else if value == "false"@ {
        ArgValueView::Bool(false)
    } else if exists|n: i64| is_canonical_integer(value, n) {
        ArgValueView::Integer(parse_i64_spec(value)->0)
    } else {
        ArgValueView::FloatCandidate(value)
    }
}

/// The outcome of parsing a list of `key=value` arguments with a given way
/// of typing values and a given error text.
pub open spec fn key_value_args_spec(
    args: Seq<Seq<char>>,
    typing: spec_fn(Seq<char>) -> ArgValueView,
    expected: Seq<char>,
) -> Result<Map<Seq<char>, ArgValueView>, ErrorView>
    decreases args.len(),
{
    if args.len() == 0 {
        Ok(Map::empty())
    } else {
        match key_value_args_spec(args.drop_last(), typing, expected) {
            Err(e) => Err(e),
            Ok(m) => match split_pair(args.last()) {
                Some((k, v)) => Ok(m.insert(k, typing(v))),
                None => Err(ErrorView::Other(invalid_argument_message(args.last(), expected))),
            },
        }
    }
}

/// The text of the error for an argument without `=`.
pub open spec fn invalid_argument_message(arg: Seq<char>, expected: Seq<char>) -> Seq<char> {
    "Invalid argument format: '"@ + arg + "'. Expected "@ + expected
}

/// The mathematical value of the result of parsing arguments.
pub open spec fn args_result_view(r: Result<Option<ArgMap>, Error>) -> Result<
    Option<Map<Seq<char>, ArgValueView>>,
    ErrorView,
> {
    match r {
        Ok(Some(m)) => Ok(Some(m@)),
        Ok(None) => Ok(None),
        Err(e) => Err(e@),
    }
}

/// What parsing a whole argument list gives: nothing for no arguments, else
/// the map or the first error.
pub open spec fn parse_args_spec(
    args: Seq<Seq<char>>,
    typing: spec_fn(Seq<char>) -> ArgValueView,
    expected: Seq<char>,
) -> Result<Option<Map<Seq<char>, ArgValueView>>, ErrorView> {
    if args.len() == 0 {
        Ok(None)
    } else {
        match key_value_args_spec(args, typing, expected) {
            Ok(m) => Ok(Some(m)),
            Err(e) => Err(e),
        }
    }
}

/// Splits `arg` at its first `=` into key and value, or reports it as
/// malformed, naming `expected` as the expected form.
pub fn split_key_value(arg: &str, expected: &str) -> (r: Result<(String, String), Error>)
    ensures
        match r {
            Ok((k, v)) => split_pair(arg@) == Some((k@, v@)),
            Err(e) => split_pair(arg@) is None && e@ == ErrorView::Other(
                invalid_argument_message(arg@, expected@),
            ),
        },
{
    let v = chars_of(arg);
    let n = v.len();
    assert(v@.subrange(0, n as int) =~= arg@);
    match find_in(&v, 0, n, '=') {
        Some(i) => {
            let key = string_from_range(&v, 0, i);
            let value = string_from_range(&v, i + 1, n);
            Ok((key, value))
        },
        None => {
            let mut m = string_from_str("Invalid argument format: '");
            push_str(&mut m, arg);
            push_str(&mut m, "'. Expected ");
            push_str(&mut m, expected);
            Err(Error::Other(m))
        },
    }
}

/// Whether `value` is a whole number written exactly as it prints, and which.
pub fn canonical_integer(value: &str) -> (r: Option<i64>)
    ensures
        match r {
            Some(n) => is_canonical_integer(value@, n),
            None => forall|n: i64| !is_canonical_integer(value@, n),
        },
{
    let v = chars_of(value);
    let len = v.len();
    assert(v@.subrange(0, len as int) =~= value@);
    match parse_i64(&v, 0, len) {
        Some(n) => {
            let printed = i64_to_decimal(n);
            if str_eq(printed.as_str(), value) {
                Some(n)
            } else {
                None
            }
        },
        None => None,
    }
}

/// Utility for parsing command-line arguments in `key=value` format.
pub struct ArgumentParser;

impl ArgumentParser {
    /// Parses arguments in `key=value` format; no arguments give nothing.
    pub fn parse_key_value_args(args: Vec<String>) -> (r: Result<Option<ArgMap>, Error>)
        ensures
            args_result_view(r) == parse_args_spec(
                args.deep_view(),
                |v: Seq<char>| value_type_spec(v),
                "key=value"@,
            ),
    {
        if args.len() == 0 {
            return Ok(None);
        }
        match parse_pairs(&args, Typing::Parser, "key=value") {
            Ok(m) => Ok(Some(m)),
            Err(e) => Err(e),
        }
    }

    /// Parses prompt arguments from `key=value` format; values stay text.
    /// No arguments give nothing; a later value for a key replaces an
    /// earlier one.
    pub fn parse_string_args(args: Vec<String>) -> (r: Result<Option<ArgMap>, Error>)
        ensures
            args_result_view(r) == parse_args_spec(
                args.deep_view(),
                |v: Seq<char>| ArgValueView::String(v),
                "key=value"@,
            ),
    {
        if args.len() == 0 {
            return Ok(None);
        }
        match parse_pairs(&args, Typing::Text, "key=value") {
            Ok(m) => Ok(Some(m)),
            Err(e) => Err(e),
        }
    }

    /// Splits a single `key=value` pair at its first `=`.
    pub fn parse_key_value_pair(arg: &str) -> (r: Result<(String, String), Error>)
        ensures
            match r {
                Ok((k, v)) => split_pair(arg@) == Some((k@, v@)),
                Err(e) => split_pair(arg@) is None && e@ == ErrorView::Other(
                    invalid_argument_message(arg@, "key=value"@),
                ),
            },
    {
        split_key_value(arg, "key=value")
    }

    /// Types a value: `true`/`false` are booleans, whole numbers written as
    /// they print are integers (so `007` is not), and the rest is left to
    /// the floating-point reading.
    pub fn parse_value_type(value: String) -> (r: ArgValue)
        ensures
            r@ == value_type_spec(value@),
    {
        proof {
            reveal_strlit("true");
            reveal_strlit("false");
        }
        if str_eq(value.as_str(), "true") {
            return ArgValue::Bool(true);
        }
        if str_eq(value.as_str(), "false") {
            return ArgValue::Bool(false);
        }
        match canonical_integer(value.as_str()) {
            Some(n) => ArgValue::Integer(n),
            None => ArgValue::FloatCandidate(value),
        }
    }

    /// Checks that every required argument is present, reporting the first
    /// missing one.
    pub fn validate_required_args(provided: &ArgMap, required: &Vec<String>) -> (r: Result<(), Error>)
        ensures
            match r {
                Ok(()) => forall|i: int|
                    0 <= i < required@.len() ==> provided@.dom().contains(#[trigger] required@[i]@),
                Err(e) => exists|i: int|
                    0 <= i < required@.len() && !provided@.dom().contains(#[trigger] required@[i]@)
                        && (forall|j: int| 0 <= j < i ==> provided@.dom().contains(#[trigger] required@[j]@))
                        && e@ == ErrorView::Other(
                        "Required argument '"@ + required@[i]@ + "' is missing"@,
                    ),
            },
    {
        let mut i: usize = 0;
        while i < required.len()
            invariant
                i <= required@.len(),
                forall|j: int| 0 <= j < i ==> provided@.dom().contains(#[trigger] required@[j]@),
            decreases required@.len() - i,
        {
            if provided.get(required[i].as_str()).is_none() {
                let mut m = string_from_str("Required argument '");
                push_str(&mut m, required[i].as_str());
                push_str(&mut m, "' is missing");
                return Err(Error::Other(m));
            }
            i = i + 1;
        }
        Ok(())
    }

    /// The text stored under `key`: nothing when absent, an error when the
    /// value is not text. A float candidate is text unless it reads as a
    /// finite floating-point number, which `number_ok` tells (that reading
    /// is left to the caller).
    pub fn get_string_arg(args: &ArgMap, key: &str, number_ok: bool) -> (r: Result<Option<String>, Error>)
        ensures
            match r {
                Ok(None) => !args@.dom().contains(key@),
                Ok(Some(s)) => args@.dom().contains(key@) && (args@[key@] == ArgValueView::String(s@)
                    || (args@[key@] == ArgValueView::FloatCandidate(s@) && !number_ok)),
                Err(e) => args@.dom().contains(key@) && !(args@[key@] is String) && !(
                args@[key@] is FloatCandidate && !number_ok) && e@ == ErrorView::Other(
                    "Argument '"@ + key@ + "' must be a string"@,
                ),
            },
    {
        match args.get(key) {
            Some(ArgValue::String(s)) => Ok(Some(s.clone())),
            Some(ArgValue::FloatCandidate(s)) if !number_ok => Ok(Some(s.clone())),
            Some(_) => {
                let mut m = string_from_str("Argument '");
                push_str(&mut m, key);
                push_str(&mut m, "' must be a string");
                Err(Error::Other(m))
            },
            None => Ok(None),
        }
    }

    /// The boolean stored under `key`: nothing when absent, an error when
    /// the value is not a boolean.
    pub fn get_bool_arg(args: &ArgMap, key: &str) -> (r: Result<Option<bool>, Error>)
        ensures
            match r {
                Ok(None) => !args@.dom().contains(key@),
                Ok(Some(b)) => args@.dom().contains(key@) && args@[key@] == ArgValueView::Bool(b),
                Err(e) => args@.dom().contains(key@) && !(args@[key@] is Bool) && e@
                    == ErrorView::Other("Argument '"@ + key@ + "' must be a boolean"@),
            },
    {
        match args.get(key) {
            Some(ArgValue::Bool(b)) => Ok(Some(*b)),
            Some(_) => {
                let mut m = string_from_str("Argument '");
                push_str(&mut m, key);
                push_str(&mut m, "' must be a boolean");
                Err(Error::Other(m))
            },
            None => Ok(None),
        }
    }
}

/// How a value is typed for tool calls given on the command line: like
/// [`value_type_spec`], except that text read as a whole number but not
/// written as it prints (`00123`) stays a string.
pub open spec fn cmdline_value_type_spec(value: Seq<char>) -> ArgValueView {
    if value == "true"@ {
        ArgValueView::Bool(true)
    } else if value == "false"@ {
        ArgValueView::Bool(false)
    } else if parse_i64_spec(value) is Some {
        if int_to_decimal(parse_i64_spec(value)->0 as int) == value {
            ArgValueView::Integer(parse_i64_spec(value)->0)
        } else {
            ArgValueView::String(value)
        }
    } else {
        ArgValueView::FloatCandidate(value)
    }
}

/// Types a value given on the command line for a tool call.
pub fn cmdline_value_type(value: String) -> (r: ArgValue)
    ensures
        r@ == cmdline_value_type_spec(value@),
{
    proof {
        reveal_strlit("true");
        reveal_strlit("false");
    }
    if str_eq(value.as_str(), "true") {
        return ArgValue::Bool(true);
    }
    if str_eq(value.as_str(), "false") {
        return ArgValue::Bool(false);
    }
    let v = chars_of(value.as_str());
    let len = v.len();
    assert(v@.subrange(0, len as int) =~= value@);
    match parse_i64(&v, 0, len) {
        Some(n) => {
            let printed = i64_to_decimal(n);
            if str_eq(printed.as_str(), value.as_str()) {
                ArgValue::Integer(n)
            } else {
                ArgValue::String(value)
            }
        },
        None => ArgValue::FloatCandidate(value),
    }
}

/// How the values of `key=value` arguments are typed.
#[derive(Clone, Copy)]
enum Typing {
    /// As `ArgumentParser` types tool arguments.
    Parser,
    /// As tool arguments given on the command line are typed.
    CommandLine,
    /// Every value is text, as prompt arguments are.
    Text,
}

/// The typing function of a typing mode.
spec fn typing_of(t: Typing) -> spec_fn(Seq<char>) -> ArgValueView {
    match t {
        Typing::Parser => |v: Seq<char>| value_type_spec(v),
        Typing::CommandLine => |v: Seq<char>| cmdline_value_type_spec(v),
        Typing::Text => |v: Seq<char>| ArgValueView::String(v),
    }
}

/// Parses `key=value` arguments into a map, typing values by `mode`.
fn parse_pairs(args: &Vec<String>, mode: Typing, expected: &str) -> (r: Result<ArgMap, Error>)
    ensures
        match r {
            Ok(m) => key_value_args_spec(args.deep_view(), typing_of(mode), expected@) == Ok::<
                Map<Seq<char>, ArgValueView>,
                ErrorView,
            >(m@),
            Err(e) => key_value_args_spec(args.deep_view(), typing_of(mode), expected@) == Err::<
                Map<Seq<char>, ArgValueView>,
                ErrorView,
            >(e@),
        },
{
    let ghost typing = typing_of(mode);
    let ghost all = args.deep_view();
    let mut m = ArgMap::new();
    let mut i: usize = 0;
    assert(all.subrange(0, 0) =~= Seq::<Seq<char>>::empty());
    while i < args.len()
        invariant
            i <= args@.len(),
            all == args.deep_view(),
            typing == typing_of(mode),
            key_value_args_spec(all.subrange(0, i as int), typing, expected@) == Ok::<
                Map<Seq<char>, ArgValueView>,
                ErrorView,
            >(m@),
        decreases args@.len() - i,
    {
        let ghost prefix = all.subrange(0, i as int + 1);
        assert(prefix.drop_last() =~= all.subrange(0, i as int));
        assert(prefix.last() == args@[i as int]@);
        match split_key_value(args[i].as_str(), expected) {
            Ok((key, value)) => {
                let typed = match mode {
                    Typing::Parser => ArgumentParser::parse_value_type(value),
                    Typing::CommandLine => cmdline_value_type(value),
                    Typing::Text => ArgValue::String(value),
                };
                m.insert(key, typed);
            },
            Err(e) => {
                assert(all.subrange(0, args@.len() as int) =~= all);
                proof {
                    lemma_args_error_persists(all, i as int + 1, typing, expected@);
                }
                return Err(e);
            },
        }
        i = i + 1;
    }
    assert(all.subrange(0, args@.len() as int) =~= all);
    Ok(m)
}

/// Once a prefix of the arguments fails, the whole list fails the same way.
proof fn lemma_args_error_persists(
    all: Seq<Seq<char>>,
    k: int,
    typing: spec_fn(Seq<char>) -> ArgValueView,
    expected: Seq<char>,
)
    requires
        0 <= k <= all.len(),
        key_value_args_spec(all.subrange(0, k), typing, expected) is Err,
    ensures
        key_value_args_spec(all, typing, expected) == key_value_args_spec(
            all.subrange(0, k),
            typing,
            expected,
        ),
    decreases all.len() - k,
{
    if k < all.len() {
        let next = all.subrange(0, k + 1);
        assert(next.drop_last() =~= all.subrange(0, k));
        lemma_args_error_persists(all, k + 1, typing, expected);
    } else {
        assert(all.subrange(0, k) =~= all);
    }
}

/// Parses tool arguments given on the command line as `key=value`; no
/// arguments give nothing. A later value for a key replaces an earlier one.
pub fn parse_command_line_arguments(args: Vec<String>) -> (r: Result<Option<ArgMap>, Error>)
    ensures
        args_result_view(r) == parse_args_spec(
            args.deep_view(),
            |v: Seq<char>| cmdline_value_type_spec(v),
            "'key=value'"@,
        ),
{
    if args.len() == 0 {
        return Ok(None);
    }
    match parse_pairs(&args, Typing::CommandLine, "'key=value'") {
        Ok(m) => Ok(Some(m)),
        Err(e) => Err(e),
    }
}

// ---------------------------------------------------------------------------
// Laws
// ---------------------------------------------------------------------------

/// When an argument list ends with `key=value`, the map it gives holds that
/// value (as typed) under that key, whatever came before: the last value
/// for a key wins.
pub proof fn lemma_later_value_wins(
    args: Seq<Seq<char>>,
    typing: spec_fn(Seq<char>) -> ArgValueView,
    expected: Seq<char>,
    key: Seq<char>,
    value: Seq<char>,
)
    requires
        args.len() > 0,
        split_pair(args.last()) == Some((key, value)),
        key_value_args_spec(args.drop_last(), typing, expected) is Ok,
    ensures
        key_value_args_spec(args, typing, expected) is Ok,
        key_value_args_spec(args, typing, expected)->Ok_0.dom().contains(key),
        key_value_args_spec(args, typing, expected)->Ok_0[key] == typing(value),
{
}

/// A whole number written as it prints is an integer argument, both for
/// `ArgumentParser` and on the command line.
pub proof fn lemma_printed_integers_are_integers(n: i64)
    ensures
        value_type_spec(int_to_decimal(n as int)) == ArgValueView::Integer(n),
        cmdline_value_type_spec(int_to_decimal(n as int)) == ArgValueView::Integer(n),
{
    reveal_strlit("true");
    reveal_strlit("false");
    lemma_parse_i64_of_decimal(n);
    let d = int_to_decimal(n as int);
    if n < 0 {
        lemma_nat_to_decimal((-n) as nat);
        assert(d[0] == '-');
    } else {
        lemma_nat_to_decimal(n as nat);
        assert(is_digit(d[0]));
    }
    assert(d != "true"@) by {
        assert(d[0] != "true"@[0]);
    }
    assert(d != "false"@) by {
        assert(d[0] != "false"@[0]);
    }
    assert(is_canonical_integer(d, n));
}

} // verus!
