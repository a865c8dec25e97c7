use vstd::prelude::*;

use crate::args::{ArgMap, ArgValue, ArgValueView};
use crate::text::{
    ascii_lowercase, chars_of, lemma_text_le_transitive, lemma_text_lt_asymmetric,
    lemma_text_lt_transitive, parse_i64, parse_i64_spec, push_str, str_eq, string_from_str, text_less,
    text_lt, to_ascii_lowercase, trim, trim_spec,
};

verus! {

/// One parameter of a tool's input schema, as the interactive prompt asks
/// for it.
#[derive(Debug, Clone, PartialEq)]
pub struct ParamSpec {
    /// The parameter's name.
    pub name: String,
    /// The JSON type named by the schema (`string` where it names none).
    pub param_type: String,
    /// The schema's description (empty where it gives none).
    pub description: String,
    /// Whether the schema lists the parameter as required.
    pub required: bool,
}

/// The mathematical value of a [`ParamSpec`].
pub struct ParamSpecView {
    pub name: Seq<char>,
    pub param_type: Seq<char>,
    pub description: Seq<char>,
    pub required: bool,
}

impl View for ParamSpec {
    type V = ParamSpecView;

    open spec fn view(&self) -> ParamSpecView {
        ParamSpecView {
            name: self.name@,
            param_type: self.param_type@,
            description: self.description@,
            required: self.required,
        }
    }
}

impl ParamSpec {
    /// A parameter as its schema describes it: the type defaults to
    /// `string` and the description to nothing where the schema names none.
    pub fn from_schema(
        name: String,
        param_type: Option<String>,
        description: Option<String>,
        required: bool,
    ) -> (p: ParamSpec)
        ensures
            p.name@ == name@,
            p.param_type@ == match param_type {
                Some(t) => t@,
                None => "string"@,
            },
            p.description@ == match description {
                Some(d) => d@,
                None => Seq::<char>::empty(),
            },
            p.required == required,
    {
        let param_type = match param_type {
            Some(t) => t,
            None => string_from_str("string"),
        };
        let description = match description {
            Some(d) => d,
            None => String::new(),
        };
        ParamSpec { name, param_type, description, required }
    }
}

/// The line that asks for a parameter.
pub open spec fn prompt_spec(p: ParamSpecView) -> Seq<char> {
    if p.required {
        p.name + " ("@ + p.param_type + ")*: "@ + p.description
    } else {
        p.name + " ("@ + p.param_type + ") [optional]: "@ + p.description
    }
}

/// Builds the line that asks for a parameter.
pub fn prompt_text(p: &ParamSpec) -> (s: String)
    ensures
        s@ == prompt_spec(p@),
{
    let mut s = string_from_str(p.name.as_str());
    push_str(&mut s, " (");
    push_str(&mut s, p.param_type.as_str());
    if p.required {
        push_str(&mut s, ")*: ");
    } else {
        push_str(&mut s, ") [optional]: ");
    }
    push_str(&mut s, p.description.as_str());
    s
}

/// Whether the parameters come in the order of their names.
pub open spec fn params_sorted(s: Seq<ParamSpec>) -> bool {
    forall|i: int, j: int| 0 <= i < j < s.len() ==> !text_lt(#[trigger] s[j].name@, #[trigger] s[i].name@)
}

/// The parameters in the order of their names, so that they are always
/// asked for in the same order.
pub fn sort_params(params: Vec<ParamSpec>) -> (r: Vec<ParamSpec>)
    ensures
        r@.to_multiset() == params@.to_multiset(),
        params_sorted(r@),
{
    broadcast use vstd::seq_lib::to_multiset_build, vstd::seq_lib::to_multiset_insert;

    let ghost original = params@;
    let mut rest = params;
    let mut out: Vec<ParamSpec> = Vec::new();
    proof {
        vstd::seq_lib::to_multiset_len(out@);
        vstd::multiset::lemma_multiset_empty_len(out@.to_multiset());
        assert(out@.to_multiset().add(rest@.to_multiset()) =~= original.to_multiset());
    }
    while rest.len() > 0
        invariant
            out@.to_multiset().add(rest@.to_multiset()) == original.to_multiset(),
            params_sorted(out@),
        decreases rest@.len(),
    {
        let ghost before = rest@;
        let x = rest.pop().unwrap();
        assert(before =~= rest@.push(x));
        let mut p: usize = 0;
        while p < out.len() && text_less(out[p].name.as_str(), x.name.as_str())
            invariant
                p <= out@.len(),
                forall|k: int| 0 <= k < p ==> text_lt(#[trigger] out@[k].name@, x.name@),
            decreases out@.len() - p,
        {
            p = p + 1;
        }
        let ghost old_out = out@;
        proof {
            assert forall|k: int| p <= k < old_out.len() implies !text_lt(
                #[trigger] old_out[k].name@,
                x.name@,
            ) by {
                if p < old_out.len() {
                    assert(!text_lt(old_out[p as int].name@, x.name@));
                    if k > p {
                        lemma_text_le_transitive(x.name@, old_out[p as int].name@, old_out[k].name@);
                    }
                }
            }
        }
        out.insert(p, x);
        proof {
            let t = out@;
            assert(t == old_out.insert(p as int, x));
            assert forall|i: int, j: int| 0 <= i < j < t.len() implies !text_lt(
                #[trigger] t[j].name@,
                #[trigger] t[i].name@,
            ) by {
                if i < p && j < p {
                    assert(t[i] == old_out[i] && t[j] == old_out[j]);
                } else if i < p && j == p {
                    assert(t[i] == old_out[i] && t[j] == x);
                    lemma_text_lt_asymmetric(old_out[i].name@, x.name@);
                } else if i < p {
                    assert(t[i] == old_out[i] && t[j] == old_out[j - 1]);
                    assert(text_lt(old_out[i].name@, x.name@));
                    assert(!text_lt(old_out[j - 1].name@, x.name@));
                    if text_lt(old_out[j - 1].name@, old_out[i].name@) {
                        lemma_text_lt_transitive(old_out[j - 1].name@, old_out[i].name@, x.name@);
                    }
                } else if i == p {
                    assert(t[j] == old_out[j - 1]);
                } else {
                    assert(t[i] == old_out[i - 1] && t[j] == old_out[j - 1]);
                }
            }
            vstd::seq_lib::to_multiset_insert(old_out, p as int, x);
            vstd::seq_lib::to_multiset_build(rest@, x);
            assert(out@.to_multiset() == old_out.to_multiset().insert(x));
            assert(before.to_multiset() == rest@.to_multiset().insert(x));
            assert(out@.to_multiset().add(rest@.to_multiset()) =~= old_out.to_multiset().add(
                before.to_multiset(),
            ));
        }
    }
    proof {
        vstd::seq_lib::to_multiset_len(rest@);
        vstd::multiset::lemma_multiset_empty_len(rest@.to_multiset());
    }
    assert(out@.to_multiset().add(rest@.to_multiset()) =~= out@.to_multiset());
    out
}

/// What one typed answer does.
#[derive(Debug, Clone, PartialEq)]
pub enum InputOutcome {
    /// Nothing was typed for an optional parameter: it is left out.
    Skip,
    /// The answer cannot stand: show the message and ask again.
    Retry(String),
    /// The parameter takes this value.
    Value(ArgValue),
}

/// The mathematical value of an [`InputOutcome`].
pub enum InputOutcomeView {
    Skip,
    Retry(Seq<char>),
    Value(ArgValueView),
}

impl View for InputOutcome {
    type V = InputOutcomeView;

    open spec fn view(&self) -> InputOutcomeView {
        match self {
            InputOutcome::Skip => InputOutcomeView::Skip,
            InputOutcome::Retry(m) => InputOutcomeView::Retry(m@),
            InputOutcome::Value(v) => InputOutcomeView::Value(v@),
        }
    }
}

/// The answers read as `true`, compared in lower case.
pub open spec fn is_true_word(w: Seq<char>) -> bool {
    w == "true"@ || w == "t"@ || w == "yes"@ || w == "y"@ || w == "1"@
}

/// The answers read as `false`, compared in lower case.
pub open spec fn is_false_word(w: Seq<char>) -> bool {
    w == "false"@ || w == "f"@ || w == "no"@ || w == "n"@ || w == "0"@
}

/// What an answer typed for a parameter does. The answer is trimmed first.
/// Nothing typed skips an optional parameter and is refused for a required
/// one. Booleans take the words above in any case, integers what `i64`
/// parses, numbers what `number_ok` says reads as a finite float (that
/// reading is floating point, left to the caller), and every other type
/// the text as it is.
pub open spec fn interpret_spec(p: ParamSpecView, line: Seq<char>, number_ok: bool) -> InputOutcomeView {
    let t = trim_spec(line);
    if t.len() == 0 {
        if p.required {
            InputOutcomeView::Retry("This parameter is required. Please enter a value."@)
        } else {
            InputOutcomeView::Skip
        }
    } else if p.param_type == "boolean"@ {
        if is_true_word(ascii_lowercase(t)) {
            InputOutcomeView::Value(ArgValueView::Bool(true))
        } else if is_false_word(ascii_lowercase(t)) {
            InputOutcomeView::Value(ArgValueView::Bool(false))
        } else {
            InputOutcomeView::Retry("Invalid boolean value. Use true/false, yes/no, or 1/0."@)
        }
    } else if p.param_type == "integer"@ {
        match parse_i64_spec(t) {
            Some(n) => InputOutcomeView::Value(ArgValueView::Integer(n)),
            None => InputOutcomeView::Retry("Invalid integer value."@),
        }
    } else if p.param_type == "number"@ {
        if number_ok {
            InputOutcomeView::Value(ArgValueView::FloatCandidate(t))
        } else {
            InputOutcomeView::Retry("Invalid number value."@)
        }
    } else {
        InputOutcomeView::Value(ArgValueView::String(t))
    }
}

/// Decides what an answer typed for a parameter does; `number_ok` tells
/// whether the trimmed answer reads as a finite floating-point number.
pub fn interpret_input(p: &ParamSpec, line: &str, number_ok: bool) -> (r: InputOutcome)
    ensures
        r@ == interpret_spec(p@, line@, number_ok),
{
    let t = trim(line);
    if t.as_str().unicode_len() == 0 {
        if p.required {
            return InputOutcome::Retry(
                string_from_str("This parameter is required. Please enter a value."),
            );
        } else {
            return InputOutcome::Skip;
        }
    }
    let ty = p.param_type.as_str();
    if str_eq(ty, "boolean") {
        let l = to_ascii_lowercase(t.as_str());
        let w = l.as_str();
        if str_eq(w, "true") || str_eq(w, "t") || str_eq(w, "yes") || str_eq(w, "y") || str_eq(
            w,
            "1",
        ) {
            InputOutcome::Value(ArgValue::Bool(true))
        } else if str_eq(w, "false") || str_eq(w, "f") || str_eq(w, "no") || str_eq(w, "n")
            || str_eq(w, "0") {
            InputOutcome::Value(ArgValue::Bool(false))
        } else {
            InputOutcome::Retry(
                string_from_str("Invalid boolean value. Use true/false, yes/no, or 1/0."),
            )
        }
    } else if str_eq(ty, "integer") {
        let v = chars_of(t.as_str());
        assert(v@.subrange(0, v@.len() as int) =~= t@);
        match parse_i64(&v, 0, v.len()) {
            Some(n) => InputOutcome::Value(ArgValue::Integer(n)),
            None => InputOutcome::Retry(string_from_str("Invalid integer value.")),
        }
    } else if str_eq(ty, "number") {
        if number_ok {
            InputOutcome::Value(ArgValue::FloatCandidate(t))
        } else {
            InputOutcome::Retry(string_from_str("Invalid number value."))
        }
    } else {
        InputOutcome::Value(ArgValue::String(t))
    }
}

/// Whether one of the first `n` parameters is named `name`.
pub open spec fn asked_before(params: Seq<ParamSpec>, n: int, name: Seq<char>) -> bool {
    exists|i: int| 0 <= i < n && #[trigger] params[i].name@ == name
}

/// Asking for a tool's parameters one by one, in the order of their names,
/// and collecting the answers.
pub struct InteractiveSession {
    params: Vec<ParamSpec>,
    next: usize,
    collected: ArgMap,
}

impl InteractiveSession {
    #[verifier::type_invariant]
    closed spec fn wf(self) -> bool {
        &&& self.next <= self.params@.len()
        &&& forall|k: Seq<char>| #[trigger]
            self.collected@.dom().contains(k) ==> asked_before(self.params@, self.next as int, k)
    }

    /// The parameters in the order they are asked for.
    pub closed spec fn queue(&self) -> Seq<ParamSpec> {
        self.params@
    }

    /// How many parameters have been dealt with.
    pub closed spec fn position(&self) -> nat {
        self.next as nat
    }

    /// The values collected so far.
    pub closed spec fn collected(&self) -> Map<Seq<char>, ArgValueView> {
        self.collected@
    }

    /// Starts asking for `params`, sorted by name.
    pub fn new(params: Vec<ParamSpec>) -> (s: Self)
        ensures
            s.queue().to_multiset() == params@.to_multiset(),
            params_sorted(s.queue()),
            s.position() == 0,
            s.collected() == Map::<Seq<char>, ArgValueView>::empty(),
    {
        InteractiveSession { params: sort_params(params), next: 0, collected: ArgMap::new() }
    }

    /// The parameter asked for now, if any is left.
    pub fn current(&self) -> (r: Option<&ParamSpec>)
        ensures
            self.position() <= self.queue().len(),
            match r {
                Some(p) => self.position() < self.queue().len() && *p == self.queue()[
                    self.position() as int
                ],
                None => self.position() == self.queue().len(),
            },
    {
        proof {
            use_type_invariant(self);
        }
        if self.next < self.params.len() {
            Some(&self.params[self.next])
        } else {
            None
        }
    }

    /// Takes the answer typed for the current parameter. A refused answer
    /// leaves the session as it was and gives the message to show; any
    /// other moves on to the next parameter, storing the value if there is
    /// one.
    pub fn answer(&mut self, line: &str, number_ok: bool) -> (r: Option<String>)
        requires
            old(self).position() < old(self).queue().len(),
        ensures
            final(self).queue() == old(self).queue(),
            match interpret_spec(old(self).queue()[old(self).position() as int]@, line@, number_ok) {
                InputOutcomeView::Retry(m) => r is Some && r->0@ == m && final(self).position() == old(
                    self,
                ).position() && final(self).collected() == old(self).collected(),
                InputOutcomeView::Skip => r is None && final(self).position() == old(
                    self,
                ).position() + 1 && final(self).collected() == old(self).collected(),
                InputOutcomeView::Value(v) => r is None && final(self).position() == old(
                    self,
                ).position() + 1 && final(self).collected() == old(self).collected().insert(
                    old(self).queue()[old(self).position() as int].name@,
                    v,
                ),
            },
    {
        proof {
            use_type_invariant(&*self);
        }
        let i = self.next;
        let n = self.params.len();
        assert(i < n);
        let outcome = interpret_input(&self.params[i], line, number_ok);
        match outcome {
            InputOutcome::Retry(m) => Some(m),
            InputOutcome::Skip => {
                proof {
                    assert forall|k: Seq<char>| #[trigger]
                        self.collected@.dom().contains(k) implies asked_before(
                        self.params@,
                        i + 1,
                        k,
                    ) by {
                        let j = choose|j: int| 0 <= j < i && #[trigger] self.params@[j].name@ == k;
                        assert(0 <= j < i + 1 && self.params@[j].name@ == k);
                    }
                }
                self.next = i + 1;
                None
            },
            InputOutcome::Value(v) => {
                let name = self.params[i].name.clone();
                let mut collected = ArgMap::new();
                std::mem::swap(&mut collected, &mut self.collected);
                let ghost old_map = collected@;
                collected.insert(name, v);
                proof {
                    assert forall|k: Seq<char>| #[trigger]
                        collected@.dom().contains(k) implies asked_before(
                        self.params@,
                        i + 1,
                        k,
                    ) by {
                        if k == self.params@[i as int].name@ {
                            assert(self.params@[i as int].name@ == k);
                        } else {
                            assert(old_map.dom().contains(k));
                            let j = choose|j: int| 0 <= j < i && #[trigger] self.params@[j].name@ == k;
                            assert(0 <= j < i + 1 && self.params@[j].name@ == k);
                        }
                    }
                }
                self.next = i + 1;
                self.collected = collected;
                None
            },
        }
    }

    /// The collected arguments, or nothing where none was given. Every
    /// collected value belongs to a parameter of the tool.
    pub fn finish(self) -> (r: Option<ArgMap>)
        ensures
            match r {
                Some(m) => m@ == self.collected() && self.collected().len() > 0,
                None => self.collected().len() == 0,
            },
            forall|k: Seq<char>| #[trigger]
                self.collected().dom().contains(k) ==> asked_before(
                    self.queue(),
                    self.queue().len() as int,
                    k,
                ),
    {
        proof {
            use_type_invariant(&self);
            assert forall|k: Seq<char>| #[trigger]
                self.collected().dom().contains(k) implies asked_before(
                self.queue(),
                self.queue().len() as int,
                k,
            ) by {
                let i = choose|i: int| 0 <= i < self.next && #[trigger] self.params@[i].name@ == k;
                assert(0 <= i < self.queue().len() && self.queue()[i].name@ == k);
            }
        }
        if self.collected.len() == 0 {
            None
        } else {
            Some(self.collected)
        }
    }
}

} // verus!
