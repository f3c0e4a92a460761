use vstd::prelude::*;
use vstd::string::*;

verus! {

/// `s` with every leading `--` pair taken off (`---x` keeps one dash).
pub open spec fn trim_double_dashes(s: Seq<char>) -> Seq<char>
    decreases s.len(),
{
    if s.len() >= 2 && s[0] == '-' && s[1] == '-' {
        trim_double_dashes(s.subrange(2, s.len() as int))
    } else {
        s
    }
}

/// `s` with all its leading dashes taken off.
pub open spec fn trim_dashes(s: Seq<char>) -> Seq<char>
    decreases s.len(),
{
    if s.len() >= 1 && s[0] == '-' {
        trim_dashes(s.drop_first())
    } else {
        s
    }
}

/// Number of characters that `trim_double_dashes` takes off the front of `s`.
fn double_dash_prefix_len(s: &str) -> (k: usize)
    ensures
        k <= s@.len(),
        trim_double_dashes(s@) == s@.subrange(k as int, s@.len() as int),
{
    let n = s.unicode_len();
    let mut k: usize = 0;
    proof {
        assert(s@.subrange(0, n as int) =~= s@);
    }
    while k < n && n - k >= 2 && s.get_char(k) == '-' && s.get_char(k + 1) == '-'
        invariant
            k <= n,
            n == s@.len(),
            trim_double_dashes(s@) == trim_double_dashes(s@.subrange(k as int, n as int)),
        decreases n - k,
    {
        proof {
            let rest = s@.subrange(k as int, n as int);
            assert(rest.subrange(2, rest.len() as int) =~= s@.subrange(k + 2, n as int));
        }
        k = k + 2;
    }
    k
}

/// Number of leading dashes of `s`.
fn dash_prefix_len(s: &str) -> (k: usize)
    ensures
        k <= s@.len(),
        trim_dashes(s@) == s@.subrange(k as int, s@.len() as int),
{
    let n = s.unicode_len();
    let mut k: usize = 0;
    proof {
        assert(s@.subrange(0, n as int) =~= s@);
    }
    while k < n && s.get_char(k) == '-'
        invariant
            k <= n,
            n == s@.len(),
            trim_dashes(s@) == trim_dashes(s@.subrange(k as int, n as int)),
        decreases n - k,
    {
        proof {
            let rest = s@.subrange(k as int, n as int);
            assert(rest.drop_first() =~= s@.subrange(k + 1, n as int));
        }
        k = k + 1;
    }
    k
}

/// `s` padded on the right with spaces to at least `width` characters.
pub open spec fn pad_right(s: Seq<char>, width: nat) -> Seq<char> {
    if s.len() >= width {
        s
    } else {
        s + Seq::new((width - s.len()) as nat, |i: int| ' ')
    }
}

/// Appends `s` to `out`, padded on the right with spaces to `width` characters.
fn push_padded(out: &mut String, s: &str, width: usize)
    ensures
        final(out)@ == old(out)@ + pad_right(s@, width as nat),
{
    out.append(s);
    let n = s.unicode_len();
    let mut k: usize = n;
    proof {
        assert(out@ + Seq::new(0, |i: int| ' ') =~= out@);
    }
    while k < width
        invariant
            n == s@.len(),
            n <= k,
            k < width ==> out@ == old(out)@ + s@ + Seq::new((k - n) as nat, |i: int| ' '),
            k >= width ==> out@ == old(out)@ + pad_right(s@, width as nat),
        decreases width - k,
    {
        out.append(" ");
        proof {
            reveal_strlit(" ");
            assert(Seq::new((k - n) as nat, |i: int| ' ').push(' ') =~= Seq::new(
                (k + 1 - n) as nat,
                |i: int| ' ',
            ));
            assert(out@ =~= old(out)@ + s@ + Seq::new((k + 1 - n) as nat, |i: int| ' '));
            if k + 1 >= width {
                assert(out@ =~= old(out)@ + pad_right(s@, width as nat));
            }
        }
        k = k + 1;
    }
}

/// A declared flag: its short and long names, a description for help
/// output, whether a value follows it and whether that value may be left out.
#[derive(Debug, Default)]
pub struct RawArgument {
    pub short: String,
    pub long: String,
    pub description: String,
    pub has_value: bool,
    pub is_optional: bool,
}

impl Clone for RawArgument {
    fn clone(&self) -> (r: Self)
        ensures
            r == *self,
    {
        RawArgument {
            short: self.short.clone(),
            long: self.long.clone(),
            description: self.description.clone(),
            has_value: self.has_value,
            is_optional: self.is_optional,
        }
    }
}

impl RawArgument {
    /// The token names this flag in its long form.
    pub open spec fn spec_long_matches(&self, token: Seq<char>) -> bool {
        trim_double_dashes(token) == self.long@
    }

    /// The token names this flag in its short form.
    pub open spec fn spec_short_matches(&self, token: Seq<char>) -> bool {
        trim_dashes(token) == self.short@
    }

    pub fn new(short: &str, long: &str, description: &str, has_value: bool, is_optional: bool) -> (r:
        RawArgument)
        ensures
            r.short@ == short@,
            r.long@ == long@,
            r.description@ == description@,
            r.has_value == has_value,
            r.is_optional == is_optional,
    {
        RawArgument {
            short: short.to_owned(),
            long: long.to_owned(),
            description: description.to_owned(),
            has_value,
            is_optional,
        }
    }

    /// Returns true if the argument matches, or false if not. Leading `--` pairs are ignored.
    pub fn long_matches(&self, long: &str) -> (r: bool)
        ensures
            r == self.spec_long_matches(long@),
    {
        let k = double_dash_prefix_len(long);
        let rest = String::from_str(long.substring_char(k, long.unicode_len()));
        rest == self.long
    }

    /// Returns true if the argument matches, or false if not. Leading dashes are ignored.
    pub fn short_matches(&self, short: &str) -> (r: bool)
        ensures
            r == self.spec_short_matches(short@),
    {
        let k = dash_prefix_len(short);
        let rest = String::from_str(short.substring_char(k, short.unicode_len()));
        rest == self.short
    }

    /// One line of help text: short name, long name, a value placeholder for
    /// flags that take one, and the description, in padded columns.
    pub fn help_line(&self) -> (r: String)
        ensures
            r@ == "-"@ + pad_right(self.short@, 5) + " "@ + "--"@ + pad_right(self.long@, 15) + " "@
                + pad_right(if self.has_value { "<value>"@ } else { ""@ }, 15) + " "@
                + self.description@,
    {
        let mut out = String::from_str("-");
        push_padded(&mut out, self.short.as_str(), 5);
        out.append(" ");
        out.append("--");
        push_padded(&mut out, self.long.as_str(), 15);
        out.append(" ");
        if self.has_value {
            push_padded(&mut out, "<value>", 15);
        } else {
            push_padded(&mut out, "", 15);
        }
        out.append(" ");
        out.append(self.description.as_str());
        out
    }
}

/// One flag found in an invocation, with the value that came with it.
#[derive(Debug, Default)]
pub struct ParsedArgument {
    pub defined_argument: Option<RawArgument>,
    pub value: Option<String>,
}

impl Clone for ParsedArgument {
    fn clone(&self) -> (r: Self)
        ensures
            r == *self,
    {
        let defined_argument = match &self.defined_argument {
            Some(arg) => Some(arg.clone()),
            None => None,
        };
        let value = match &self.value {
            Some(v) => Some(v.clone()),
            None => None,
        };
        ParsedArgument { defined_argument, value }
    }
}

impl ParsedArgument {
    /// The flag's definition says that a value follows it.
    pub open spec fn spec_has_value(&self) -> bool {
        match self.defined_argument {
            Some(arg) => arg.has_value,
            None => false,
        }
    }

    /// The flag's definition says that its value may be left out.
    pub open spec fn spec_is_optional(&self) -> bool {
        match self.defined_argument {
            Some(arg) => arg.is_optional,
            None => false,
        }
    }

    /// There is a definition, and the token names it in its long form.
    pub open spec fn spec_long_matches(&self, token: Seq<char>) -> bool {
        match self.defined_argument {
            Some(arg) => arg.spec_long_matches(token),
            None => false,
        }
    }

    /// There is a definition, and the token names it in its short form.
    pub open spec fn spec_short_matches(&self, token: Seq<char>) -> bool {
        match self.defined_argument {
            Some(arg) => arg.spec_short_matches(token),
            None => false,
        }
    }

    /// Creates a new Argument from a Raw Argument and an optional value
    pub fn new(defined_argument: Option<RawArgument>, value: Option<String>) -> (r: Self)
        ensures
            r.defined_argument == defined_argument,
            r.value == value,
    {
        ParsedArgument { defined_argument, value }
    }

    /// Returns true if the Argument is supposed to get a value
    pub fn has_value(&self) -> (r: bool)
        ensures
            r == self.spec_has_value(),
    {
        match &self.defined_argument {
            Some(arg) => arg.has_value,
            None => false,
        }
    }

    /// Clears the Arguments fields and sets them to none
    pub fn clear(&mut self)
        ensures
            final(self).defined_argument is None,
            final(self).value is None,
    {
        self.defined_argument = None;
        self.value = None;
    }

    /// Returns true if the argument matches, or false if not matching or not present. Leading `--` pairs are ignored
    pub fn long_matches(&self, long: &str) -> (r: bool)
        ensures
            r == self.spec_long_matches(long@),
    {
        match &self.defined_argument {
            Some(arg) => arg.long_matches(long),
            None => false,
        }
    }

    /// Returns true if the argument matches, or false if not matching or not present. Leading dashes are ignored
    pub fn short_matches(&self, short: &str) -> (r: bool)
        ensures
            r == self.spec_short_matches(short@),
    {
        match &self.defined_argument {
            Some(arg) => arg.short_matches(short),
            None => false,
        }
    }

    /// Returns true if the arguments value is optional, otherwise false
    pub fn is_optional(&self) -> (r: bool)
        ensures
            r == self.spec_is_optional(),
    {
        match &self.defined_argument {
            Some(arg) => arg.is_optional,
            None => false,
        }
    }
}

} // verus!
