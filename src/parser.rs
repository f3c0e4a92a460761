use vstd::prelude::*;

use crate::arguments::{ParsedArgument, RawArgument};
use crate::error::{missing_value_message, unrecognized_message, ParserError};

verus! {

/// The token is written in long form (`--name`).
pub open spec fn is_long_token(t: Seq<char>) -> bool {
    t.len() >= 2 && t[0] == '-' && t[1] == '-'
}

/// The token looks like a flag (it starts with `-`), so it is never taken as a value.
pub open spec fn is_flag_token(t: Seq<char>) -> bool {
    t.len() >= 1 && t[0] == '-'
}

/// The first definition whose long name the token gives.
pub open spec fn find_long(defs: Seq<RawArgument>, t: Seq<char>) -> Option<RawArgument>
    decreases defs.len(),
{
    if defs.len() == 0 {
        None
    } else if defs[0].spec_long_matches(t) {
        Some(defs[0])
    } else {
        find_long(defs.drop_first(), t)
    }
}

/// The first definition whose short name the token gives.
pub open spec fn find_short(defs: Seq<RawArgument>, t: Seq<char>) -> Option<RawArgument>
    decreases defs.len(),
{
    if defs.len() == 0 {
        None
    } else if defs[0].spec_short_matches(t) {
        Some(defs[0])
    } else {
        find_short(defs.drop_first(), t)
    }
}

/// The definition that a token in flag position stands for, if any.
pub open spec fn resolve_token(defs: Seq<RawArgument>, t: Seq<char>) -> Option<RawArgument> {
    if is_long_token(t) {
        find_long(defs, t)
    } else if is_flag_token(t) {
        find_short(defs, t)
    } else {
        None
    }
}

/// The entry recorded for a flag found with the given value.
pub open spec fn matched(def: RawArgument, value: Option<String>) -> ParsedArgument {
    ParsedArgument { defined_argument: Some(def), value }
}

/// `prefix` put in front of a successful result; an error passes through.
pub open spec fn with_prefix(
    prefix: Seq<ParsedArgument>,
    rest: Result<Seq<ParsedArgument>, Seq<char>>,
) -> Result<Seq<ParsedArgument>, Seq<char>> {
    match rest {
        Ok(found) => Ok(prefix + found),
        Err(msg) => Err(msg),
    }
}

/// What parsing `toks` (no program name in front) gives: the flags found, in
/// input order, or the text of the first error.
pub open spec fn parse_flags(defs: Seq<RawArgument>, toks: Seq<String>) -> Result<
    Seq<ParsedArgument>,
    Seq<char>,
>
    decreases toks.len(),
{
    if toks.len() == 0 {
        Ok(Seq::empty())
    } else {
        match resolve_token(defs, toks[0]@) {
            None => Err(unrecognized_message(toks[0]@)),
            Some(def) => if !def.has_value {
                with_prefix(seq![matched(def, None)], parse_flags(defs, toks.drop_first()))
            } else if toks.len() >= 2 && !is_flag_token(toks[1]@) {
                with_prefix(
                    seq![matched(def, Some(toks[1]))],
                    parse_flags(defs, toks.subrange(2, toks.len() as int)),
                )
            } else if def.is_optional {
                with_prefix(seq![matched(def, None)], parse_flags(defs, toks.drop_first()))
            } else {
                Err(missing_value_message(toks[0]@))
            },
        }
    }
}

/// What parsing an invocation gives: its first token, the program, is skipped.
pub open spec fn parse_tokens(defs: Seq<RawArgument>, toks: Seq<String>) -> Result<
    Seq<ParsedArgument>,
    Seq<char>,
> {
    if toks.len() == 0 {
        Ok(Seq::empty())
    } else {
        parse_flags(defs, toks.drop_first())
    }
}

/// The first parsed entry whose definition the token names in long form.
pub open spec fn find_parsed_long(parsed: Seq<ParsedArgument>, t: Seq<char>) -> Option<
    ParsedArgument,
>
    decreases parsed.len(),
{
    if parsed.len() == 0 {
        None
    } else if parsed[0].spec_long_matches(t) {
        Some(parsed[0])
    } else {
        find_parsed_long(parsed.drop_first(), t)
    }
}

/// The first parsed entry whose definition the token names in short form.
pub open spec fn find_parsed_short(parsed: Seq<ParsedArgument>, t: Seq<char>) -> Option<
    ParsedArgument,
>
    decreases parsed.len(),
{
    if parsed.len() == 0 {
        None
    } else if parsed[0].spec_short_matches(t) {
        Some(parsed[0])
    } else {
        find_parsed_short(parsed.drop_first(), t)
    }
}

/// Each entry stems from one of `defs`, and holds a value only where its
/// definition takes one.
pub open spec fn entries_from(defs: Seq<RawArgument>, parsed: Seq<ParsedArgument>) -> bool {
    forall|i: int|
        0 <= i < parsed.len() ==> {
            &&& #[trigger] parsed[i].defined_argument matches Some(def)
            &&& defs.contains(def)
            &&& parsed[i].value is Some ==> def.has_value
        }
}

proof fn lemma_prefix_assoc(
    a: Seq<ParsedArgument>,
    b: Seq<ParsedArgument>,
    rest: Result<Seq<ParsedArgument>, Seq<char>>,
)
    ensures
        with_prefix(a, with_prefix(b, rest)) == with_prefix(a + b, rest),
{
    if let Ok(found) = rest {
        assert(a + (b + found) =~= (a + b) + found);
    }
}

proof fn lemma_find_long_declared(defs: Seq<RawArgument>, t: Seq<char>)
    ensures
        find_long(defs, t) matches Some(def) ==> defs.contains(def),
    decreases defs.len(),
{
    if defs.len() > 0 && !defs[0].spec_long_matches(t) {
        lemma_find_long_declared(defs.drop_first(), t);
        if let Some(def) = find_long(defs, t) {
            let j = choose|j: int| 0 <= j < defs.drop_first().len() && defs.drop_first()[j] == def;
            assert(defs[j + 1] == def);
        }
    }
}

proof fn lemma_find_short_declared(defs: Seq<RawArgument>, t: Seq<char>)
    ensures
        find_short(defs, t) matches Some(def) ==> defs.contains(def),
    decreases defs.len(),
{
    if defs.len() > 0 && !defs[0].spec_short_matches(t) {
        lemma_find_short_declared(defs.drop_first(), t);
        if let Some(def) = find_short(defs, t) {
            let j = choose|j: int| 0 <= j < defs.drop_first().len() && defs.drop_first()[j] == def;
            assert(defs[j + 1] == def);
        }
    }
}

proof fn lemma_resolve_declared(defs: Seq<RawArgument>, t: Seq<char>)
    ensures
        resolve_token(defs, t) matches Some(def) ==> defs.contains(def),
{
    lemma_find_long_declared(defs, t);
    lemma_find_short_declared(defs, t);
}

proof fn lemma_entries_concat(defs: Seq<RawArgument>, a: Seq<ParsedArgument>, b: Seq<ParsedArgument>)
    requires
        entries_from(defs, a),
        entries_from(defs, b),
    ensures
        entries_from(defs, a + b),
{
    assert forall|i: int| 0 <= i < (a + b).len() implies {
        &&& #[trigger] (a + b)[i].defined_argument matches Some(def)
        &&& defs.contains(def)
        &&& (a + b)[i].value is Some ==> def.has_value
    } by {
        if i < a.len() {
            assert((a + b)[i] == a[i]);
        } else {
            assert((a + b)[i] == b[i - a.len()]);
        }
    }
}

/// The token is written in long form.
fn is_long(s: &str) -> (r: bool)
    ensures
        r == is_long_token(s@),
{
    let n = s.unicode_len();
    n >= 2 && s.get_char(0) == '-' && s.get_char(1) == '-'
}

/// The token looks like a flag.
fn is_flag(s: &str) -> (r: bool)
    ensures
        r == is_flag_token(s@),
{
    let n = s.unicode_len();
    n >= 1 && s.get_char(0) == '-'
}

/// Declared flags and the flags found so far.
#[derive(Debug, Clone, Default)]
pub struct Parser {
    _defined_arguments: Vec<RawArgument>,
    _parsed_arguments: Vec<ParsedArgument>,
}

impl Parser {
    /// The declared flags, in the order they were added.
    pub closed spec fn definitions(&self) -> Seq<RawArgument> {
        self._defined_arguments@
    }

    /// The flags found by parsing, in input order.
    pub closed spec fn parsed(&self) -> Seq<ParsedArgument> {
        self._parsed_arguments@
    }

    /// Every entry found stems from a declared flag and holds a value only
    /// where that flag takes one.
    pub open spec fn wf(&self) -> bool {
        entries_from(self.definitions(), self.parsed())
    }

    /// Creates a new Parser
    pub fn new() -> (r: Self)
        ensures
            r.definitions() == Seq::<RawArgument>::empty(),
            r.parsed() == Seq::<ParsedArgument>::empty(),
            r.wf(),
    {
        Parser { _defined_arguments: Vec::new(), _parsed_arguments: Vec::new() }
    }

    /// Adds an Argument
    pub fn add_arg(
        self,
        short: &str,
        long: &str,
        description: &str,
        has_value: bool,
        is_optional: bool,
    ) -> (r: Self)
        ensures
            r.definitions().len() == self.definitions().len() + 1,
            r.definitions().drop_last() == self.definitions(),
            r.definitions().last().short@ == short@,
            r.definitions().last().long@ == long@,
            r.definitions().last().description@ == description@,
            r.definitions().last().has_value == has_value,
            r.definitions().last().is_optional == is_optional,
            r.parsed() == self.parsed(),
            self.wf() ==> r.wf(),
    {
        let mut this = self;
        let ghost before = this.definitions();
        this._defined_arguments.push(
            RawArgument::new(short, long, description, has_value, is_optional),
        );
        proof {
            assert(this.definitions().drop_last() =~= before);
            if entries_from(before, this.parsed()) {
                assert forall|i: int| 0 <= i < this.parsed().len() implies {
                    &&& #[trigger] this.parsed()[i].defined_argument matches Some(def)
                    &&& this.definitions().contains(def)
                    &&& this.parsed()[i].value is Some ==> def.has_value
                } by {
                    let def = this.parsed()[i].defined_argument->Some_0;
                    let j = choose|j: int| 0 <= j < before.len() && before[j] == def;
                    assert(this.definitions()[j] == def);
                }
            }
        }
        this
    }

    fn find_predefined_by_short(&self, short: &str) -> (r: Option<RawArgument>)
        ensures
            r == find_short(self.definitions(), short@),
    {
        let n = self._defined_arguments.len();
        let mut i: usize = 0;
        proof {
            assert(self.definitions().subrange(0, n as int) =~= self.definitions());
        }
        while i < n
            invariant
                i <= n,
                n == self.definitions().len(),
                find_short(self.definitions(), short@) == find_short(
                    self.definitions().subrange(i as int, n as int),
                    short@,
                ),
            decreases n - i,
        {
            proof {
                let rest = self.definitions().subrange(i as int, n as int);
                assert(rest.drop_first() =~= self.definitions().subrange(i + 1, n as int));
            }
            if self._defined_arguments[i].short_matches(short) {
                return Some(self._defined_arguments[i].clone());
            }
            i = i + 1;
        }
        None
    }

    fn find_predefined_by_long(&self, long: &str) -> (r: Option<RawArgument>)
        ensures
            r == find_long(self.definitions(), long@),
    {
        let n = self._defined_arguments.len();
        let mut i: usize = 0;
        proof {
            assert(self.definitions().subrange(0, n as int) =~= self.definitions());
        }
        while i < n
            invariant
                i <= n,
                n == self.definitions().len(),
                find_long(self.definitions(), long@) == find_long(
                    self.definitions().subrange(i as int, n as int),
                    long@,
                ),
            decreases n - i,
        {
            proof {
                let rest = self.definitions().subrange(i as int, n as int);
                assert(rest.drop_first() =~= self.definitions().subrange(i + 1, n as int));
            }
            if self._defined_arguments[i].long_matches(long) {
                return Some(self._defined_arguments[i].clone());
            }
            i = i + 1;
        }
        None
    }

    fn parse_string(&self, string: &str) -> (r: Result<ParsedArgument, ParserError>)
        ensures
            match resolve_token(self.definitions(), string@) {
                Some(def) => r == Ok::<ParsedArgument, ParserError>(matched(def, None)),
                None => r matches Err(e) && e.spec_details() == unrecognized_message(string@),
            },
    {
        let found = if is_long(string) {
            self.find_predefined_by_long(string)
        } else if is_flag(string) {
            self.find_predefined_by_short(string)
        } else {
            None
        };
        match found {
            Some(def) => Ok(ParsedArgument::new(Some(def), None)),
            None => Err(ParserError::unrecognized(string)),
        }
    }

    /// Parses an invocation's tokens (the first one names the program and is
    /// skipped) against the declared flags. On success the flags found are
    /// added, in input order, to those found before; on the first error
    /// nothing is added.
    pub fn parse(&mut self, tokens: &Vec<String>) -> (r: Result<(), ParserError>)
        ensures
            final(self).definitions() == old(self).definitions(),
            match parse_tokens(old(self).definitions(), tokens@) {
                Ok(found) => r is Ok && final(self).parsed() == old(self).parsed() + found,
                Err(msg) => r matches Err(e) && e.spec_details() == msg && final(self).parsed()
                    == old(self).parsed(),
            },
            old(self).wf() ==> final(self).wf(),
    {
        let ghost defs = self.definitions();
        let ghost toks = tokens@;
        let n = tokens.len();
        if n == 0 {
            return Ok(());
        }
        let mut found: Vec<ParsedArgument> = Vec::new();
        let mut idx: usize = 1;
        proof {
            assert(toks.subrange(1, n as int) =~= toks.drop_first());
            assert(found@ + Seq::<ParsedArgument>::empty() =~= Seq::<ParsedArgument>::empty());
            lemma_prefix_assoc(found@, Seq::empty(), parse_flags(defs, toks.drop_first()));
        }
        while idx < n
            invariant
                1 <= idx <= n,
                n == toks.len(),
                toks == tokens@,
                defs == self.definitions(),
                self.definitions() == old(self).definitions(),
                self.parsed() == old(self).parsed(),
                parse_tokens(defs, toks) == with_prefix(
                    found@,
                    parse_flags(defs, toks.subrange(idx as int, n as int)),
                ),
                entries_from(defs, found@),
            decreases n - idx,
        {
            let ghost rest = toks.subrange(idx as int, n as int);
            let ghost before = found@;
            let token = tokens[idx].as_str();
            assert(rest[0] == toks[idx as int]);
            let current = match self.parse_string(token) {
                Ok(current) => current,
                Err(e) => {
                    return Err(e);
                },
            };
            let ghost def = current.defined_argument->Some_0;
            proof {
                lemma_resolve_declared(defs, token@);
                assert(rest.drop_first() =~= toks.subrange(idx + 1, n as int));
            }
            idx = idx + 1;
            if !current.has_value() {
                proof {
                    lemma_prefix_assoc(before, seq![current], parse_flags(defs, rest.drop_first()));
                }
                found.push(current);
                assert(found@ =~= before + seq![current]);
            } else if idx < n && !is_flag(tokens[idx].as_str()) {
                let mut current = current;
                current.value = Some(tokens[idx].clone());
                proof {
                    assert(rest[1] == toks[idx as int]);
                    assert(rest.subrange(2, rest.len() as int) =~= toks.subrange(idx + 1, n as int));
                    assert(current == matched(def, Some(toks[idx as int])));
                    lemma_prefix_assoc(
                        before,
                        seq![current],
                        parse_flags(defs, toks.subrange(idx + 1, n as int)),
                    );
                }
                idx = idx + 1;
                found.push(current);
                assert(found@ =~= before + seq![current]);
            } else if current.is_optional() {
                proof {
                    lemma_prefix_assoc(before, seq![current], parse_flags(defs, rest.drop_first()));
                }
                found.push(current);
                assert(found@ =~= before + seq![current]);
            } else {
                return Err(ParserError::missing_value(token));
            }
            proof {
                let last = found@.len() - 1;
                assert(found@.drop_last() =~= found@.subrange(0, last));
                assert forall|i: int| 0 <= i < found@.len() implies {
                    &&& #[trigger] found@[i].defined_argument matches Some(def)
                    &&& defs.contains(def)
                    &&& found@[i].value is Some ==> def.has_value
                } by {
                    if i < last {
                        assert(found@[i] == found@.drop_last()[i]);
                    }
                }
            }
        }
        proof {
            assert(toks.subrange(idx as int, n as int) =~= Seq::<String>::empty());
            assert(found@ + Seq::<ParsedArgument>::empty() =~= found@);
            if entries_from(defs, self.parsed()) {
                lemma_entries_concat(defs, self.parsed(), found@);
            }
        }
        self._parsed_arguments.append(&mut found);
        Ok(())
    }
    /// Returns the defined Arguments for printing help prompts or the likes
    pub fn get_arguments(&self) -> (r: Vec<RawArgument>)
        ensures
            r@ == self.definitions(),
    {
        let r = self._defined_arguments.clone();
        proof {
            assert(r@ =~= self.definitions());
        }
        r
    }

    /// Returns the parsed arguments for iterating over them etc
    pub fn get_parsed_arguments(&self) -> (r: Vec<ParsedArgument>)
        ensures
            r@ == self.parsed(),
    {
        let r = self._parsed_arguments.clone();
        proof {
            assert(r@ =~= self.parsed());
        }
        r
    }

    /// The first flag found whose long name `long` gives, if any.
    pub fn get_parsed_argument_long(&self, long: &str) -> (r: Option<ParsedArgument>)
        ensures
            r == find_parsed_long(self.parsed(), long@),
    {
        let n = self._parsed_arguments.len();
        let mut i: usize = 0;
        proof {
            assert(self.parsed().subrange(0, n as int) =~= self.parsed());
        }
        while i < n
            invariant
                i <= n,
                n == self.parsed().len(),
                find_parsed_long(self.parsed(), long@) == find_parsed_long(
                    self.parsed().subrange(i as int, n as int),
                    long@,
                ),
            decreases n - i,
        {
            proof {
                let rest = self.parsed().subrange(i as int, n as int);
                assert(rest.drop_first() =~= self.parsed().subrange(i + 1, n as int));
            }
            if self._parsed_arguments[i].long_matches(long) {
                return Some(self._parsed_arguments[i].clone());
            }
            i = i + 1;
        }
        None
    }

    /// The first flag found whose short name `short` gives, if any.
    pub fn get_parsed_argument_short(&self, short: &str) -> (r: Option<ParsedArgument>)
        ensures
            r == find_parsed_short(self.parsed(), short@),
    {
        let n = self._parsed_arguments.len();
        let mut i: usize = 0;
        proof {
            assert(self.parsed().subrange(0, n as int) =~= self.parsed());
        }
        while i < n
            invariant
                i <= n,
                n == self.parsed().len(),
                find_parsed_short(self.parsed(), short@) == find_parsed_short(
                    self.parsed().subrange(i as int, n as int),
                    short@,
                ),
            decreases n - i,
        {
            proof {
                let rest = self.parsed().subrange(i as int, n as int);
                assert(rest.drop_first() =~= self.parsed().subrange(i + 1, n as int));
            }
            if self._parsed_arguments[i].short_matches(short) {
                return Some(self._parsed_arguments[i].clone());
            }
            i = i + 1;
        }
        None
    }
}


/// A flag that takes no value never takes the token after it: that token is
/// resolved afresh, as if the flag were not there.
pub proof fn lemma_switch_leaves_next_token(
    defs: Seq<RawArgument>,
    def: RawArgument,
    prog: String,
    t: String,
    rest: Seq<String>,
)
    requires
        resolve_token(defs, t@) == Some(def),
        !def.has_value,
    ensures
        parse_tokens(defs, seq![prog, t] + rest) == with_prefix(
            seq![matched(def, None)],
            parse_tokens(defs, seq![prog] + rest),
        ),
{
    assert((seq![prog, t] + rest).drop_first() =~= seq![t] + rest);
    assert((seq![t] + rest).drop_first() =~= rest);
    assert((seq![prog] + rest).drop_first() =~= rest);
}

proof fn lemma_flags_then_required(defs: Seq<RawArgument>, def: RawArgument, s: Seq<String>, t: String)
    requires
        parse_flags(defs, s) is Ok,
        resolve_token(defs, t@) == Some(def),
        def.has_value,
        !def.is_optional,
    ensures
        parse_flags(defs, s.push(t)) == Err::<Seq<ParsedArgument>, Seq<char>>(
            missing_value_message(t@),
        ),
    decreases s.len(),
{
    let st = s.push(t);
    if s.len() == 0 {
        assert(st =~= seq![t]);
    } else {
        assert(st[0] == s[0]);
        if let Some(d) = resolve_token(defs, s[0]@) {
            if !d.has_value {
                assert(st.drop_first() =~= s.drop_first().push(t));
                lemma_flags_then_required(defs, def, s.drop_first(), t);
            } else if s.len() >= 2 && !is_flag_token(s[1]@) {
                assert(st[1] == s[1]);
                assert(st.subrange(2, st.len() as int) =~= s.subrange(2, s.len() as int).push(t));
                lemma_flags_then_required(defs, def, s.subrange(2, s.len() as int), t);
            } else if s.len() >= 2 {
                assert(st[1] == s[1]);
                assert(st.drop_first() =~= s.drop_first().push(t));
                lemma_flags_then_required(defs, def, s.drop_first(), t);
            } else {
                assert(st[1] == t);
                assert(st.drop_first() =~= Seq::<String>::empty().push(t));
                lemma_flags_then_required(defs, def, Seq::empty(), t);
            }
        }
    }
}

/// A flag that needs a value and is the last token fails with a missing
/// value, whatever valid flags come before it.
pub proof fn lemma_required_value_at_end(
    defs: Seq<RawArgument>,
    def: RawArgument,
    toks: Seq<String>,
    t: String,
)
    requires
        toks.len() >= 1,
        parse_tokens(defs, toks) is Ok,
        resolve_token(defs, t@) == Some(def),
        def.has_value,
        !def.is_optional,
    ensures
        parse_tokens(defs, toks.push(t)) == Err::<Seq<ParsedArgument>, Seq<char>>(
            missing_value_message(t@),
        ),
{
    assert(toks.push(t).drop_first() =~= toks.drop_first().push(t));
    lemma_flags_then_required(defs, def, toks.drop_first(), t);
}

/// A flag whose value may be left out, directly followed by a token that
/// looks like a flag, is recorded without a value, and that token is
/// resolved afresh.
pub proof fn lemma_optional_value_left_out(
    defs: Seq<RawArgument>,
    def: RawArgument,
    prog: String,
    t: String,
    u: String,
    rest: Seq<String>,
)
    requires
        resolve_token(defs, t@) == Some(def),
        def.has_value,
        def.is_optional,
        is_flag_token(u@),
    ensures
        parse_tokens(defs, seq![prog, t, u] + rest) == with_prefix(
            seq![matched(def, None)],
            parse_tokens(defs, seq![prog, u] + rest),
        ),
{
    let s = (seq![prog, t, u] + rest).drop_first();
    assert(s =~= seq![t, u] + rest);
    assert(s[1] == u);
    assert(s.drop_first() =~= seq![u] + rest);
    assert((seq![prog, u] + rest).drop_first() =~= seq![u] + rest);
}

/// No two definitions share a long name, and no two share a short name.
pub open spec fn distinct_names(defs: Seq<RawArgument>) -> bool {
    forall|i: int, j: int|
        0 <= i < defs.len() && 0 <= j < defs.len() && i != j ==> {
            &&& defs[i].long@ != defs[j].long@
            &&& defs[i].short@ != defs[j].short@
        }
}

proof fn lemma_found_lookups_agree(
    defs: Seq<RawArgument>,
    parsed: Seq<ParsedArgument>,
    def: RawArgument,
    long: Seq<char>,
    short: Seq<char>,
)
    requires
        entries_from(defs, parsed),
        distinct_names(defs),
        defs.contains(def),
        def.spec_long_matches(long),
        def.spec_short_matches(short),
    ensures
        find_parsed_long(parsed, long) == find_parsed_short(parsed, short),
    decreases parsed.len(),
{
    if parsed.len() > 0 {
        let a = parsed[0].defined_argument->Some_0;
        assert(parsed[0].defined_argument matches Some(_));
        let m = choose|m: int| 0 <= m < defs.len() && defs[m] == a;
        let k = choose|k: int| 0 <= k < defs.len() && defs[k] == def;
        assert(parsed[0].spec_long_matches(long) <==> m == k);
        assert(parsed[0].spec_short_matches(short) <==> m == k);
        assert forall|i: int| 0 <= i < parsed.drop_first().len() implies {
            &&& #[trigger] parsed.drop_first()[i].defined_argument matches Some(d)
            &&& defs.contains(d)
            &&& parsed.drop_first()[i].value is Some ==> d.has_value
        } by {
            assert(parsed.drop_first()[i] == parsed[i + 1]);
        }
        lemma_found_lookups_agree(defs, parsed.drop_first(), def, long, short);
    }
}

/// Where flag names are unique, looking a found flag up by its long name and
/// by its short name gives the same entry.
pub proof fn lemma_lookups_agree(p: &Parser, def: RawArgument, long: Seq<char>, short: Seq<char>)
    requires
        p.wf(),
        distinct_names(p.definitions()),
        p.definitions().contains(def),
        def.spec_long_matches(long),
        def.spec_short_matches(short),
    ensures
        find_parsed_long(p.parsed(), long) == find_parsed_short(p.parsed(), short),
{
    lemma_found_lookups_agree(p.definitions(), p.parsed(), def, long, short);
}

} // verus!
