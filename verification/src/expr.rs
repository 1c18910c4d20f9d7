//! The engine core: a small expression language.
//!
//! The grammar is one atom, or a chain of atoms joined by `+`:
//! decimal integer literals, double-quoted string literals, the boolean
//! literals `true` and `false`, and identifier paths such as `builtins.foo`.
//! Identifiers are bound lazily; looking one up only fails when the value is
//! forced, which is where an "undefined variable" diagnostic comes from.

use vstd::prelude::*;
use vstd::string::StrSliceExecFns;

verus! {

/// Characters the scanner skips between tokens.
pub open spec fn is_ws(c: char) -> bool {
    c == ' ' || c == '\n' || c == '\t' || c == '\r'
}

/// Decimal digits.
pub open spec fn is_digit(c: char) -> bool {
    '0' <= c && c <= '9'
}

/// Characters that may begin an identifier.
pub open spec fn is_ident_start(c: char) -> bool {
    ('a' <= c && c <= 'z') || ('A' <= c && c <= 'Z') || c == '_'
}

/// Characters that may continue an identifier path, `.` included so that a
/// path such as `builtins.foo` scans as one name.
pub open spec fn is_ident_char(c: char) -> bool {
    is_ident_start(c) || is_digit(c) || c == '.' || c == '-'
}

fn is_ws_char(c: char) -> (b: bool)
    ensures
        b == is_ws(c),
{
    c == ' ' || c == '\n' || c == '\t' || c == '\r'
}

fn is_digit_char(c: char) -> (b: bool)
    ensures
        b == is_digit(c),
{
    '0' <= c && c <= '9'
}

fn is_ident_start_char(c: char) -> (b: bool)
    ensures
        b == is_ident_start(c),
{
    ('a' <= c && c <= 'z') || ('A' <= c && c <= 'Z') || c == '_'
}

fn is_ident_char_char(c: char) -> (b: bool)
    ensures
        b == is_ident_char(c),
{
    is_ident_start_char(c) || is_digit_char(c) || c == '.' || c == '-'
}

/// The characters of a string, one per cell, so the scanner can index in
/// constant time.
pub fn to_chars(s: &str) -> (v: Vec<char>)
    ensures
        v@ == s@,
{
    let n = s.unicode_len();
    let mut v: Vec<char> = Vec::new();
    let mut i: usize = 0;
    while i < n
        invariant
            i <= n,
            n == s@.len(),
            v@ == s@.subrange(0, i as int),
        decreases n - i,
    {
        let c = s.get_char(i);
        v.push(c);
        proof {
            assert(s@.subrange(0, i as int).push(s@[i as int]) =~= s@.subrange(0, i + 1));
        }
        i = i + 1;
    }
    proof {
        assert(s@.subrange(0, n as int) =~= s@);
    }
    v
}

/// First index at or after `i` that does not hold whitespace.
pub open spec fn spec_skip_ws(s: Seq<char>, i: int) -> int
    decreases s.len() - i,
{
    if 0 <= i < s.len() && is_ws(s[i]) {
        spec_skip_ws(s, i + 1)
    } else {
        i
    }
}

pub proof fn lemma_skip_ws_bounds(s: Seq<char>, i: int)
    requires
        0 <= i <= s.len(),
    ensures
        i <= spec_skip_ws(s, i) <= s.len(),
    decreases s.len() - i,
{
    if i < s.len() && is_ws(s[i]) {
        lemma_skip_ws_bounds(s, i + 1);
    }
}

fn skip_ws(v: &Vec<char>, i: usize) -> (r: usize)
    requires
        i <= v.len(),
    ensures
        r == spec_skip_ws(v@, i as int),
        i <= r <= v.len(),
    decreases v.len() - i,
{
    if i < v.len() && is_ws_char(v[i]) {
        skip_ws(v, i + 1)
    } else {
        i
    }
}

/// End of the digit run that starts at `i`.
pub open spec fn spec_scan_digits(s: Seq<char>, i: int) -> int
    decreases s.len() - i,
{
    if 0 <= i < s.len() && is_digit(s[i]) {
        spec_scan_digits(s, i + 1)
    } else {
        i
    }
}

pub proof fn lemma_scan_digits_bounds(s: Seq<char>, i: int)
    requires
        0 <= i <= s.len(),
    ensures
        i <= spec_scan_digits(s, i) <= s.len(),
    decreases s.len() - i,
{
    if i < s.len() && is_digit(s[i]) {
        lemma_scan_digits_bounds(s, i + 1);
    }
}

fn scan_digits(v: &Vec<char>, i: usize) -> (r: usize)
    requires
        i <= v.len(),
    ensures
        r == spec_scan_digits(v@, i as int),
        i <= r <= v.len(),
        forall|m: int| i <= m < r ==> is_digit(v@[m]),
    decreases v.len() - i,
{
    if i < v.len() && is_digit_char(v[i]) {
        scan_digits(v, i + 1)
    } else {
        i
    }
}

/// End of the identifier run that starts at `i`.
pub open spec fn spec_scan_ident(s: Seq<char>, i: int) -> int
    decreases s.len() - i,
{
    if 0 <= i < s.len() && is_ident_char(s[i]) {
        spec_scan_ident(s, i + 1)
    } else {
        i
    }
}

pub proof fn lemma_scan_ident_bounds(s: Seq<char>, i: int)
    requires
        0 <= i <= s.len(),
    ensures
        i <= spec_scan_ident(s, i) <= s.len(),
    decreases s.len() - i,
{
    if i < s.len() && is_ident_char(s[i]) {
        lemma_scan_ident_bounds(s, i + 1);
    }
}

fn scan_ident(v: &Vec<char>, i: usize) -> (r: usize)
    requires
        i <= v.len(),
    ensures
        r == spec_scan_ident(v@, i as int),
        i <= r <= v.len(),
    decreases v.len() - i,
{
    if i < v.len() && is_ident_char_char(v[i]) {
        scan_ident(v, i + 1)
    } else {
        i
    }
}

/// Index of the first `"` at or after `i`, or the length if there is none.
pub open spec fn spec_scan_to_quote(s: Seq<char>, i: int) -> int
    decreases s.len() - i,
{
    if 0 <= i < s.len() && s[i] != '"' {
        spec_scan_to_quote(s, i + 1)
    } else {
        i
    }
}

pub proof fn lemma_scan_to_quote_bounds(s: Seq<char>, i: int)
    requires
        0 <= i <= s.len(),
    ensures
        i <= spec_scan_to_quote(s, i) <= s.len(),
    decreases s.len() - i,
{
    if i < s.len() && s[i] != '"' {
        lemma_scan_to_quote_bounds(s, i + 1);
    }
}

fn scan_to_quote(v: &Vec<char>, i: usize) -> (r: usize)
    requires
        i <= v.len(),
    ensures
        r == spec_scan_to_quote(v@, i as int),
        i <= r <= v.len(),
    decreases v.len() - i,
{
    if i < v.len() && v[i] != '"' {
        scan_to_quote(v, i + 1)
    } else {
        i
    }
}

/// Numeric value of the digit character `c`.
pub open spec fn digit_of(c: char) -> int {
    c as int - '0' as int
}

/// Powers of ten.
pub open spec fn pow10(n: nat) -> int
    decreases n,
{
    if n == 0 {
        1
    } else {
        10 * pow10((n - 1) as nat)
    }
}

/// Value of the digits `s[i..j)` read left to right on top of `acc`.
pub open spec fn spec_digits_val(s: Seq<char>, i: int, j: int, acc: int) -> int
    decreases j - i,
{
    if i < j {
        spec_digits_val(s, i + 1, j, acc * 10 + digit_of(s[i]))
    } else {
        acc
    }
}

/// The largest digit count the engine core accepts in one integer literal;
/// every value with that many digits fits in a 64-bit signed integer.
pub const MAX_INT_DIGITS: usize = 18;

proof fn lemma_digits_val_bound(s: Seq<char>, i: int, j: int, acc: int, k: nat)
    requires
        i <= j,
        forall|m: int| i <= m < j ==> is_digit(s[m]),
        0 <= acc < pow10(k),
    ensures
        0 <= spec_digits_val(s, i, j, acc) < pow10((k + j - i) as nat),
    decreases j - i,
{
    if i < j {
        assert(0 <= digit_of(s[i]) <= 9);
        assert(acc * 10 + digit_of(s[i]) < pow10(k + 1));
        lemma_digits_val_bound(s, i + 1, j, acc * 10 + digit_of(s[i]), k + 1);
        assert((k + 1 + j - (i + 1)) as nat == (k + j - i) as nat);
    }
}

proof fn lemma_pow10_mono(a: nat, b: nat)
    requires
        a <= b,
    ensures
        1 <= pow10(a) <= pow10(b),
    decreases b,
{
    if b > 0 && a < b {
        lemma_pow10_mono(a, (b - 1) as nat);
    } else if b > 0 {
        lemma_pow10_mono((a - 1) as nat, (b - 1) as nat);
    }
}

proof fn lemma_pow10_18()
    ensures
        pow10(18) == 1000000000000000000,
{
    reveal_with_fuel(pow10, 20);
}

fn digits_val(v: &Vec<char>, i: usize, j: usize, acc: u64) -> (r: u64)
    requires
        i <= j <= v.len(),
        j - i <= MAX_INT_DIGITS,
        forall|m: int| i <= m < j ==> is_digit(v@[m]),
        acc < pow10((MAX_INT_DIGITS - (j - i)) as nat),
    ensures
        r == spec_digits_val(v@, i as int, j as int, acc as int),
        r < pow10(MAX_INT_DIGITS as nat),
    decreases j - i,
{
    proof {
        lemma_pow10_18();
        lemma_digits_val_bound(v@, i as int, j as int, acc as int, (MAX_INT_DIGITS - (j - i)) as nat);
    }
    if i < j {
        let c = v[i];
        assert(is_digit(v@[i as int]));
        let d: u64 = (c as u32 as u64) - ('0' as u32 as u64);
        assert(d == digit_of(v@[i as int]));
        proof {
            let m = (MAX_INT_DIGITS - (j - i)) as nat;
            assert(pow10(m + 1) == 10 * pow10(m));
            assert(acc * 10 + d < pow10(m + 1));
            assert(m + 1 == (MAX_INT_DIGITS - (j - (i + 1))) as nat);
            lemma_pow10_mono(m + 1, 18);
            lemma_pow10_18();
        }
        digits_val(v, i + 1, j, acc * 10 + d)
    } else {
        acc
    }
}

/// One operand of an expression.
#[derive(Debug)]
pub enum Atom {
    Int(i64),
    Str(String),
    Bool(bool),
    Var(String),
}

/// The mathematical shape of an operand.
pub enum AtomModel {
    Int(int),
    Str(Seq<char>),
    Bool(bool),
    Var(Seq<char>),
}

impl View for Atom {
    type V = AtomModel;

    open spec fn view(&self) -> AtomModel {
        match self {
            Atom::Int(n) => AtomModel::Int(*n as int),
            Atom::Str(s) => AtomModel::Str(s@),
            Atom::Bool(b) => AtomModel::Bool(*b),
            Atom::Var(x) => AtomModel::Var(x@),
        }
    }
}

impl DeepView for Atom {
    type V = AtomModel;

    open spec fn deep_view(&self) -> AtomModel {
        self.view()
    }
}

/// One atom scanned at `i`: its shape and the index just past it.
pub open spec fn spec_parse_atom(s: Seq<char>, i: int) -> Option<(AtomModel, int)> {
    if !(0 <= i < s.len()) {
        None
    } else if is_digit(s[i]) {
        let j = spec_scan_digits(s, i);
        if j - i <= MAX_INT_DIGITS {
            Some((AtomModel::Int(spec_digits_val(s, i, j, 0)), j))
        } else {
            None
        }
    } else if s[i] == '"' {
        let j = spec_scan_to_quote(s, i + 1);
        if j < s.len() {
            Some((AtomModel::Str(s.subrange(i + 1, j)), j + 1))
        } else {
            None
        }
    } else if is_ident_start(s[i]) {
        let j = spec_scan_ident(s, i);
        let name = s.subrange(i, j);
        if name == "true"@ {
            Some((AtomModel::Bool(true), j))
        } else if name == "false"@ {
            Some((AtomModel::Bool(false), j))
        } else {
            Some((AtomModel::Var(name), j))
        }
    } else {
        None
    }
}

pub proof fn lemma_parse_atom_advance(s: Seq<char>, i: int)
    requires
        0 <= i,
    ensures
        spec_parse_atom(s, i) matches Some(r) ==> i < r.1 <= s.len(),
{
    if 0 <= i < s.len() {
        if is_digit(s[i]) {
            lemma_scan_digits_bounds(s, i + 1);
        } else if s[i] == '"' {
            if i + 1 <= s.len() {
                lemma_scan_to_quote_bounds(s, i + 1);
            }
        } else if is_ident_start(s[i]) {
            lemma_scan_ident_bounds(s, i + 1);
        }
    }
}

fn parse_atom(s: &str, v: &Vec<char>, i: usize) -> (r: Option<(Atom, usize)>)
    requires
        v@ == s@,
        i <= v.len(),
    ensures
        match r {
            Some((a, n)) => spec_parse_atom(v@, i as int) == Some((a@, n as int)) && i < n
                <= v.len(),
            None => spec_parse_atom(v@, i as int) is None,
        },
{
    proof {
        lemma_parse_atom_advance(v@, i as int);
    }
    if i >= v.len() {
        None
    } else if is_digit_char(v[i]) {
        let j = scan_digits(&v, i);
        if j - i <= MAX_INT_DIGITS {
            proof {
                lemma_pow10_mono(0, (MAX_INT_DIGITS - (j - i)) as nat);
            }
            let val = digits_val(v, i, j, 0);
            proof {
                lemma_pow10_18();
            }
            Some((Atom::Int(val as i64), j))
        } else {
            None
        }
    } else if v[i] == '"' {
        let j = scan_to_quote(&v, i + 1);
        if j < v.len() {
            let content = s.substring_char(i + 1, j).to_owned();
            Some((Atom::Str(content), j + 1))
        } else {
            None
        }
    } else if is_ident_start_char(v[i]) {
        let j = scan_ident(&v, i);
        let name = s.substring_char(i, j).to_owned();
        if name == String::from_str("true") {
            Some((Atom::Bool(true), j))
        } else if name == String::from_str("false") {
            Some((Atom::Bool(false), j))
        } else {
            Some((Atom::Var(name), j))
        }
    } else {
        None
    }
}

/// The rest of an atom chain: whitespace, then either the end of the input
/// or a `+` followed by another atom.
pub open spec fn spec_parse_rest(s: Seq<char>, i: int, acc: Seq<AtomModel>) -> Option<
    Seq<AtomModel>,
>
    decreases s.len() - i,
    when 0 <= i <= s.len()
{
    let i2 = spec_skip_ws(s, i);
    if i2 >= s.len() {
        Some(acc)
    } else if s[i2] == '+' {
        let i3 = spec_skip_ws(s, i2 + 1);
        proof {
            lemma_skip_ws_bounds(s, i);
            lemma_skip_ws_bounds(s, i2 + 1);
            lemma_parse_atom_advance(s, i3);
        }
        match spec_parse_atom(s, i3) {
            None => None,
            Some((a, j)) => spec_parse_rest(s, j, acc.push(a)),
        }
    } else {
        None
    }
}

fn parse_rest(s: &str, v: &Vec<char>, i: usize, acc: Vec<Atom>) -> (r: Option<Vec<Atom>>)
    requires
        v@ == s@,
        i <= v.len(),
    ensures
        match r {
            Some(e) => spec_parse_rest(v@, i as int, acc.deep_view()) == Some(e.deep_view())
                && e.len() >= acc.len(),
            None => spec_parse_rest(v@, i as int, acc.deep_view()) is None,
        },
    decreases v.len() - i,
{
    let i2 = skip_ws(v, i);
    if i2 >= v.len() {
        Some(acc)
    } else if v[i2] == '+' {
        let i3 = skip_ws(v, i2 + 1);
        match parse_atom(s, v, i3) {
            None => None,
            Some((a, j)) => {
                let mut acc2 = acc;
                let ghost acc_model = acc2.deep_view();
                acc2.push(a);
                proof {
                    assert(acc2.deep_view() =~= acc_model.push(a@));
                }
                parse_rest(s, v, j, acc2)
            },
        }
    } else {
        None
    }
}

/// The whole grammar: one atom, then a chain of `+ atom` groups, and
/// nothing but whitespace before, between and after.
pub open spec fn spec_parse(s: Seq<char>) -> Option<Seq<AtomModel>> {
    let i = spec_skip_ws(s, 0);
    match spec_parse_atom(s, i) {
        None => None,
        Some((a, j)) => spec_parse_rest(s, j, seq![a]),
    }
}

/// Parses an expression; the result mirrors `spec_parse` exactly.
pub fn parse_expr(s: &str) -> (r: Option<Vec<Atom>>)
    ensures
        match r {
            Some(e) => spec_parse(s@) == Some(e.deep_view()) && e.len() >= 1,
            None => spec_parse(s@) is None,
        },
{
    let v = to_chars(s);
    let i = skip_ws(&v, 0);
    match parse_atom(s, &v, i) {
        None => None,
        Some((a, j)) => {
            let mut acc: Vec<Atom> = Vec::new();
            acc.push(a);
            proof {
                assert(acc.deep_view() =~= seq![a@]);
            }
            parse_rest(s, &v, j, acc)
        },
    }
}

/// Integer atoms never leave `0 ..= i64::MAX`: the scanner caps the digit
/// count, so a parsed literal is non-negative and fits.
pub open spec fn atoms_ok(atoms: Seq<AtomModel>) -> bool {
    forall|k: int|
        0 <= k < atoms.len() ==> (#[trigger] atoms[k] matches AtomModel::Int(n) ==> 0 <= n
            <= i64::MAX)
}

proof fn lemma_scan_digits_chars(s: Seq<char>, i: int)
    requires
        0 <= i <= s.len(),
    ensures
        forall|m: int| i <= m < spec_scan_digits(s, i) ==> is_digit(s[m]),
    decreases s.len() - i,
{
    if i < s.len() && is_digit(s[i]) {
        lemma_scan_digits_chars(s, i + 1);
        lemma_scan_digits_bounds(s, i + 1);
    }
}

proof fn lemma_parse_atom_ok(s: Seq<char>, i: int)
    requires
        0 <= i,
    ensures
        spec_parse_atom(s, i) matches Some(r) ==> (r.0 matches AtomModel::Int(n) ==> 0 <= n
            <= i64::MAX),
{
    if 0 <= i < s.len() && is_digit(s[i]) {
        let j = spec_scan_digits(s, i);
        lemma_scan_digits_bounds(s, i);
        lemma_scan_digits_chars(s, i);
        if j - i <= MAX_INT_DIGITS {
            lemma_pow10_mono(0, 0);
            lemma_digits_val_bound(s, i, j, 0, 0);
            lemma_pow10_mono((j - i) as nat, 18);
            lemma_pow10_18();
        }
    }
}

proof fn lemma_parse_rest_ok(s: Seq<char>, i: int, acc: Seq<AtomModel>)
    requires
        0 <= i <= s.len(),
        atoms_ok(acc),
    ensures
        spec_parse_rest(s, i, acc) matches Some(e) ==> atoms_ok(e) && e.len() >= acc.len(),
    decreases s.len() - i,
{
    let i2 = spec_skip_ws(s, i);
    lemma_skip_ws_bounds(s, i);
    if i2 < s.len() && s[i2] == '+' {
        let i3 = spec_skip_ws(s, i2 + 1);
        lemma_skip_ws_bounds(s, i2 + 1);
        lemma_parse_atom_advance(s, i3);
        lemma_parse_atom_ok(s, i3);
        match spec_parse_atom(s, i3) {
            None => {},
            Some((a, j)) => {
                assert(atoms_ok(acc.push(a)));
                lemma_parse_rest_ok(s, j, acc.push(a));
            },
        }
    }
}

/// What the grammar yields is a non-empty chain whose integers all fit.
pub proof fn lemma_parse_atoms_ok(s: Seq<char>)
    ensures
        spec_parse(s) matches Some(atoms) ==> atoms_ok(atoms) && atoms.len() >= 1,
{
    let i = spec_skip_ws(s, 0);
    lemma_skip_ws_bounds(s, 0);
    lemma_parse_atom_advance(s, i);
    lemma_parse_atom_ok(s, i);
    match spec_parse_atom(s, i) {
        None => {},
        Some((a, j)) => {
            assert(atoms_ok(seq![a]));
            lemma_parse_rest_ok(s, j, seq![a]);
        },
    }
}

/// A fully evaluated value.
#[derive(Debug)]
pub enum ForcedVal {
    Int(i64),
    Str(String),
    Bool(bool),
}

/// The mathematical shape of a fully evaluated value.
pub enum ValModel {
    Int(int),
    Str(Seq<char>),
    Bool(bool),
}

impl View for ForcedVal {
    type V = ValModel;

    open spec fn view(&self) -> ValModel {
        match self {
            ForcedVal::Int(n) => ValModel::Int(*n as int),
            ForcedVal::Str(s) => ValModel::Str(s@),
            ForcedVal::Bool(b) => ValModel::Bool(*b),
        }
    }
}

/// What forcing a bound expression can come to.
pub enum ForceResult {
    Val(ForcedVal),
    Undef(String),
    TypeErr,
    Overflow,
}

/// The mathematical shape of a forcing outcome.
pub enum ForceOutcome {
    Val(ValModel),
    Undef(Seq<char>),
    TypeErr,
    Overflow,
}

impl View for ForceResult {
    type V = ForceOutcome;

    open spec fn view(&self) -> ForceOutcome {
        match self {
            ForceResult::Val(v) => ForceOutcome::Val(v@),
            ForceResult::Undef(x) => ForceOutcome::Undef(x@),
            ForceResult::TypeErr => ForceOutcome::TypeErr,
            ForceResult::Overflow => ForceOutcome::Overflow,
        }
    }
}

/// Left-to-right sum of the atoms from `k` on.  Only integers can be added;
/// an identifier fails the lookup, and the sum must stay within the engine's
/// 64-bit signed integers.
pub open spec fn spec_sum(atoms: Seq<AtomModel>, k: int, acc: int) -> ForceOutcome
    decreases atoms.len() - k,
    when 0 <= k
{
    if k >= atoms.len() {
        ForceOutcome::Val(ValModel::Int(acc))
    } else {
        match atoms[k] {
            AtomModel::Int(n) => if i64::MIN <= acc + n <= i64::MAX {
                spec_sum(atoms, k + 1, acc + n)
            } else {
                ForceOutcome::Overflow
            },
            AtomModel::Var(x) => ForceOutcome::Undef(x),
            AtomModel::Str(_) => ForceOutcome::TypeErr,
            AtomModel::Bool(_) => ForceOutcome::TypeErr,
        }
    }
}

/// Forcing a whole atom chain: a single atom is its own value (an identifier
/// fails its lookup); a longer chain is a sum.
pub open spec fn spec_force(atoms: Seq<AtomModel>) -> ForceOutcome {
    if atoms.len() == 1 {
        match atoms[0] {
            AtomModel::Int(n) => ForceOutcome::Val(ValModel::Int(n)),
            AtomModel::Str(s) => ForceOutcome::Val(ValModel::Str(s)),
            AtomModel::Bool(b) => ForceOutcome::Val(ValModel::Bool(b)),
            AtomModel::Var(x) => ForceOutcome::Undef(x),
        }
    } else {
        spec_sum(atoms, 0, 0)
    }
}

fn sum_atoms(e: &Vec<Atom>, k: usize, acc: i64) -> (r: ForceResult)
    requires
        k <= e.len(),
    ensures
        r@ == spec_sum(e.deep_view(), k as int, acc as int),
    decreases e.len() - k,
{
    if k >= e.len() {
        ForceResult::Val(ForcedVal::Int(acc))
    } else {
        match &e[k] {
            Atom::Int(n) => match acc.checked_add(*n) {
                Some(a2) => sum_atoms(e, k + 1, a2),
                None => ForceResult::Overflow,
            },
            Atom::Var(x) => ForceResult::Undef(x.clone()),
            Atom::Str(_) => ForceResult::TypeErr,
            Atom::Bool(_) => ForceResult::TypeErr,
        }
    }
}

/// Forces an atom chain; the result mirrors `spec_force` exactly.
pub fn force_atoms(e: &Vec<Atom>) -> (r: ForceResult)
    requires
        e.len() >= 1,
    ensures
        r@ == spec_force(e.deep_view()),
{
    if e.len() == 1 {
        match &e[0] {
            Atom::Int(n) => ForceResult::Val(ForcedVal::Int(*n)),
            Atom::Str(s) => ForceResult::Val(ForcedVal::Str(s.clone())),
            Atom::Bool(b) => ForceResult::Val(ForcedVal::Bool(*b)),
            Atom::Var(x) => ForceResult::Undef(x.clone()),
        }
    } else {
        sum_atoms(e, 0, 0)
    }
}

proof fn lemma_sum_nonneg(atoms: Seq<AtomModel>, k: int, acc: int)
    requires
        0 <= k,
        0 <= acc,
        atoms_ok(atoms),
    ensures
        spec_sum(atoms, k, acc) matches ForceOutcome::Val(v) ==> (v matches ValModel::Int(n) ==> n
            >= 0),
    decreases atoms.len() - k,
{
    if k < atoms.len() {
        match atoms[k] {
            AtomModel::Int(n) => {
                if i64::MIN <= acc + n <= i64::MAX {
                    lemma_sum_nonneg(atoms, k + 1, acc + n);
                }
            },
            _ => {},
        }
    }
}

/// Forcing a well-formed chain never yields a negative integer.
pub proof fn lemma_force_nonneg(atoms: Seq<AtomModel>)
    requires
        atoms_ok(atoms),
    ensures
        spec_force(atoms) matches ForceOutcome::Val(v) ==> (v matches ValModel::Int(n) ==> n >= 0),
{
    if atoms.len() == 1 {
        assert(atoms[0] matches AtomModel::Int(n) ==> 0 <= n);
    } else {
        lemma_sum_nonneg(atoms, 0, 0);
    }
}

/// The digit character for `d` in `0 ..= 9`.
pub open spec fn digit_char(d: int) -> char {
    if d == 0 {
        '0'
    } else if d == 1 {
        '1'
    } else if d == 2 {
        '2'
    } else if d == 3 {
        '3'
    } else if d == 4 {
        '4'
    } else if d == 5 {
        '5'
    } else if d == 6 {
        '6'
    } else if d == 7 {
        '7'
    } else if d == 8 {
        '8'
    } else {
        '9'
    }
}

/// Decimal digits of a non-negative integer, most significant first.
pub open spec fn dec_digits(n: int) -> Seq<char>
    decreases n,
    when n >= 0
{
    if n < 10 {
        seq![digit_char(n)]
    } else {
        proof {
            assert(n / 10 < n) by (nonlinear_arith)
                requires
                    n >= 10,
            ;
        }
        dec_digits(n / 10).push(digit_char(n % 10))
    }
}

fn digit_string(d: u64) -> (r: String)
    requires
        d < 10,
    ensures
        r@ == seq![digit_char(d as int)],
{
    let r = if d == 0 {
        String::from_str("0")
    } else if d == 1 {
        String::from_str("1")
    } else if d == 2 {
        String::from_str("2")
    } else if d == 3 {
        String::from_str("3")
    } else if d == 4 {
        String::from_str("4")
    } else if d == 5 {
        String::from_str("5")
    } else if d == 6 {
        String::from_str("6")
    } else if d == 7 {
        String::from_str("7")
    } else if d == 8 {
        String::from_str("8")
    } else {
        String::from_str("9")
    };
    proof {
        reveal_strlit("0");
        reveal_strlit("1");
        reveal_strlit("2");
        reveal_strlit("3");
        reveal_strlit("4");
        reveal_strlit("5");
        reveal_strlit("6");
        reveal_strlit("7");
        reveal_strlit("8");
        reveal_strlit("9");
        assert(r@ =~= seq![digit_char(d as int)]);
    }
    r
}

/// Renders a non-negative integer in decimal.
pub fn dec_str(n: u64) -> (r: String)
    ensures
        r@ == dec_digits(n as int),
    decreases n,
{
    if n < 10 {
        digit_string(n)
    } else {
        let mut s = dec_str(n / 10);
        let d = digit_string(n % 10);
        s.append(d.as_str());
        proof {
            assert(dec_digits((n / 10) as int) + seq![digit_char((n % 10) as int)] =~= dec_digits(
                (n / 10) as int,
            ).push(digit_char((n % 10) as int)));
        }
        s
    }
}

/// The printable text of a value: a string's own characters, `true` or
/// `false`, or decimal digits.
pub open spec fn spec_display(v: ValModel) -> Seq<char> {
    match v {
        ValModel::Str(s) => s,
        ValModel::Bool(b) => if b {
            "true"@
        } else {
            "false"@
        },
        ValModel::Int(n) => if n >= 0 {
            dec_digits(n)
        } else {
            seq!['-'] + dec_digits(-n)
        },
    }
}

/// Renders a value; the engine core never produces a negative integer, so
/// only non-negative ones need rendering.
pub fn display_val(v: &ForcedVal) -> (r: String)
    requires
        v@ matches ValModel::Int(n) ==> n >= 0,
    ensures
        r@ == spec_display(v@),
{
    match v {
        ForcedVal::Str(s) => s.clone(),
        ForcedVal::Bool(b) => if *b {
            String::from_str("true")
        } else {
            String::from_str("false")
        },
        ForcedVal::Int(n) => dec_str(*n as u64),
    }
}

/// Diagnostic for an identifier whose lookup failed during forcing.
pub open spec fn undef_msg(name: Seq<char>) -> Seq<char> {
    "undefined variable '"@ + name + "'"@
}

/// Diagnostic for adding something that is not an integer.
pub open spec fn type_err_msg() -> Seq<char> {
    "cannot add non-integer values"@
}

/// Diagnostic for a sum that leaves 64-bit signed range.
pub open spec fn overflow_msg() -> Seq<char> {
    "integer overflow in addition"@
}

/// Diagnostic for input the grammar refuses: blank input has its own text.
pub open spec fn parse_err_msg(s: Seq<char>) -> Seq<char> {
    if spec_skip_ws(s, 0) == s.len() {
        "unexpected end of input"@
    } else {
        "syntax error: expected an expression"@
    }
}

pub fn undef_msg_str(name: &String) -> (r: String)
    ensures
        r@ == undef_msg(name@),
{
    let mut s = String::from_str("undefined variable '");
    s.append(name.as_str());
    s.append("'");
    s
}

pub fn parse_err_msg_str(s: &str) -> (r: String)
    ensures
        r@ == parse_err_msg(s@),
{
    let v = to_chars(s);
    let i = skip_ws(&v, 0);
    if i == v.len() {
        String::from_str("unexpected end of input")
    } else {
        String::from_str("syntax error: expected an expression")
    }
}

/// What evaluating a whole expression string comes to: its printable text,
/// or a diagnostic from binding, or one from forcing.
pub enum EvalOut {
    Val(Seq<char>),
    BindErr(Seq<char>),
    ForceErr(Seq<char>),
}

/// The whole engine core, end to end: parse, force, render.
pub open spec fn eval_model(s: Seq<char>) -> EvalOut {
    match spec_parse(s) {
        None => EvalOut::BindErr(parse_err_msg(s)),
        Some(atoms) => match spec_force(atoms) {
            ForceOutcome::Val(v) => EvalOut::Val(spec_display(v)),
            ForceOutcome::Undef(x) => EvalOut::ForceErr(undef_msg(x)),
            ForceOutcome::TypeErr => EvalOut::ForceErr(type_err_msg()),
            ForceOutcome::Overflow => EvalOut::ForceErr(overflow_msg()),
        },
    }
}

} // verus!
