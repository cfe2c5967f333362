use vstd::prelude::*;
use vstd::string::StringExecFns;

verus! {

/// The character of the decimal digit `d`.
pub open spec fn digit_char(d: nat) -> char {
    (48 + d) as char
}

/// The decimal digits of `n`, most significant first, without leading
/// zeros.
pub open spec fn decimal(n: nat) -> Seq<char>
    decreases n,
{
    if n < 10 {
        seq![digit_char(n)]
    } else {
        decimal(n / 10).push(digit_char(n % 10))
    }
}

/// The name numbered `n` under `prefix`: the prefix, an underscore and
/// the number in decimal.
pub open spec fn numbered_name(prefix: Seq<char>, n: nat) -> Seq<char> {
    prefix + seq!['_'] + decimal(n)
}

/// The digit `d` as a one-character string.
fn digit_str(d: usize) -> (res: &'static str)
    requires
        d < 10,
    ensures
        res@ == seq![digit_char(d as nat)],
{
    proof {
        reveal_strlit("0");
        reveal_strlit("1");
        reveal_strlit("2");
        reveal_strlit("3");
        reveal_strlit("4");
        reveal_strlit("5");
        reveal_strlit("6");
        reveal_strlit("7");
        reveal_strlit("8");
        reveal_strlit("9");
    }
    match d {
        0 => "0",
        1 => "1",
        2 => "2",
        3 => "3",
        4 => "4",
        5 => "5",
        6 => "6",
        7 => "7",
        8 => "8",
        _ => "9",
    }
}

/// Appends `n` written in decimal to `s`.
fn append_decimal(s: &mut String, n: usize)
    ensures
        final(s)@ == old(s)@ + decimal(n as nat),
    decreases n,
{
    if n >= 10 {
        append_decimal(s, n / 10);
    }
    s.append(digit_str(n % 10));
    proof {
        if n >= 10 {
            assert(old(s)@ + decimal(n as nat) =~= old(s)@ + decimal((n / 10) as nat) + seq![
                digit_char((n % 10) as nat),
            ]);
        } else {
            assert(n % 10 == n);
        }
    }
}

/// The name numbered `n` under `prefix`: the prefix, an underscore and
/// the number in decimal.
fn numbered_name_string(prefix: &String, n: usize) -> (res: String)
    ensures
        res@ == numbered_name(prefix@, n as nat),
{
    let mut name = prefix.clone();
    let separator = "_";
    proof {
        reveal_strlit("_");
    }
    name.append(separator);
    append_decimal(&mut name, n);
    name
}

/// Generates the names `prefix_1`, `prefix_2`, ... in turn.
#[derive(Debug, Clone)]
pub struct NameGen {
    prefix: String,
    current_gen: usize,
}

impl NameGen {
    pub closed spec fn spec_prefix(&self) -> Seq<char> {
        self.prefix@
    }

    /// The number of the name generated last (0 before the first).
    pub closed spec fn spec_current_gen(&self) -> usize {
        self.current_gen
    }

    pub fn new(prefix: String) -> (res: Self)
        ensures
            res.spec_prefix() == prefix@,
            res.spec_current_gen() == 0,
    {
        Self { prefix, current_gen: 0 }
    }

    /// The generator of shader names: `shader_1`, `shader_2`, ...
    pub fn for_shaders() -> (res: Self)
        ensures
            res.spec_prefix() == "shader"@,
            res.spec_current_gen() == 0,
    {
        Self::new(String::from_str("shader"))
    }

    /// The next name: the prefix numbered one past the name generated
    /// last.
    pub fn next(&mut self) -> (res: Option<String>)
        requires
            old(self).spec_current_gen() < usize::MAX,
        ensures
            final(self).spec_prefix() == old(self).spec_prefix(),
            final(self).spec_current_gen() == old(self).spec_current_gen() + 1,
            res matches Some(name) && name@ == numbered_name(
                old(self).spec_prefix(),
                final(self).spec_current_gen() as nat,
            ),
    {
        self.current_gen = self.current_gen + 1;
        Some(numbered_name_string(&self.prefix, self.current_gen))
    }
}

proof fn lemma_decimal_nonempty(n: nat)
    ensures
        decimal(n).len() >= 1,
    decreases n,
{
    if n >= 10 {
        lemma_decimal_nonempty(n / 10);
    }
}

/// Different numbers are written differently in decimal.
proof fn lemma_decimal_injective(a: nat, b: nat)
    requires
        decimal(a) == decimal(b),
    ensures
        a == b,
    decreases a,
{
    if a < 10 && b < 10 {
        assert(decimal(a)[0] == digit_char(a));
        assert(decimal(b)[0] == digit_char(b));
    } else if a < 10 {
        lemma_decimal_nonempty(b / 10);
        assert(decimal(b).len() >= 2);
    } else if b < 10 {
        lemma_decimal_nonempty(a / 10);
        assert(decimal(a).len() >= 2);
    } else {
        let da = decimal(a);
        let db = decimal(b);
        assert(da.last() == digit_char(a % 10));
        assert(db.last() == digit_char(b % 10));
        assert(decimal(a / 10) == da.drop_last());
        assert(decimal(b / 10) == db.drop_last());
        lemma_decimal_injective(a / 10, b / 10);
    }
}

/// A generator never gives the same name twice: names with different
/// numbers under one prefix differ.
pub proof fn law_generated_names_differ(prefix: Seq<char>, a: nat, b: nat)
    requires
        a != b,
    ensures
        numbered_name(prefix, a) != numbered_name(prefix, b),
{
    if numbered_name(prefix, a) == numbered_name(prefix, b) {
        let k = prefix.len() + 1;
        assert(numbered_name(prefix, a).subrange(k as int, numbered_name(prefix, a).len() as int)
            =~= decimal(a));
        assert(numbered_name(prefix, b).subrange(k as int, numbered_name(prefix, b).len() as int)
            =~= decimal(b));
        lemma_decimal_injective(a, b);
    }
}

} // verus!
