//! The output path resolver: builds a stem from the naming rules (keep the
//! original stem, or number the outputs zero-padded), appends the
//! lowercased format extension, and resolves collisions against the files
//! already present by appending `_1`, `_2`, ... before the extension. The
//! decimal rendering is proved injective, so distinct counters give
//! distinct candidates and a free candidate always exists among the first
//! `n + 1` tried against `n` existing names.
use vstd::prelude::*;
use vstd::seq_lib::seq_to_set_is_finite;
use vstd::set_lib::lemma_len_subset;
use crate::options::NamingOptions;

verus! {

/// The character for one decimal digit.
pub open spec fn spec_digit_char(d: int) -> char {
    if d == 0 {
        '0'
    } else if d == 1 {
        '1'
    } else if d == 2 {
        '2'
    } else if d == 3 {
        '3'
    } else if d == 4 {
        '4'
    } else if d == 5 {
        '5'
    } else if d == 6 {
        '6'
    } else if d == 7 {
        '7'
    } else if d == 8 {
        '8'
    } else {
        '9'
    }
}

/// The decimal rendering of a number, most significant digit first.
pub open spec fn spec_dec(n: nat) -> Seq<char>
    decreases n,
{
    if n < 10 {
        seq![spec_digit_char(n as int)]
    } else {
        spec_dec(n / 10).push(spec_digit_char((n % 10) as int))
    }
}

/// A run of `k` zero characters.
pub open spec fn spec_zeros(k: nat) -> Seq<char> {
    Seq::new(k, |i: int| '0')
}

/// The decimal rendering left-padded with zeros to at least `width`.
pub open spec fn spec_padded_dec(n: nat, width: int) -> Seq<char> {
    let d = spec_dec(n);
    if d.len() >= width {
        d
    } else {
        spec_zeros((width - d.len()) as nat) + d
    }
}

/// A decimal rendering has one digit under ten and gains digits with
/// each factor of ten.
proof fn lemma_dec_len(n: nat)
    ensures
        n < 10 ==> spec_dec(n).len() == 1,
        n >= 10 ==> spec_dec(n).len() >= 2,
    decreases n,
{
    if n >= 10 {
        lemma_dec_len(n / 10);
    }
}

/// Distinct digits render as distinct characters.
proof fn lemma_digit_injective(a: int, b: int)
    requires
        0 <= a < 10,
        0 <= b < 10,
        spec_digit_char(a) == spec_digit_char(b),
    ensures
        a == b,
{
}

/// Distinct numbers have distinct decimal renderings.
proof fn lemma_dec_injective(a: nat, b: nat)
    requires
        spec_dec(a) == spec_dec(b),
    ensures
        a == b,
    decreases a,
{
    lemma_dec_len(a);
    lemma_dec_len(b);
    if a < 10 && b < 10 {
        assert(spec_dec(a) == seq![spec_digit_char(a as int)]);
        assert(spec_dec(b) == seq![spec_digit_char(b as int)]);
        assert(spec_dec(a)[0] == spec_digit_char(a as int));
        assert(spec_dec(b)[0] == spec_digit_char(b as int));
        lemma_digit_injective(a as int, b as int);
    } else if a >= 10 && b >= 10 {
        assert(spec_dec(a) == spec_dec(a / 10).push(spec_digit_char((a % 10) as int)));
        assert(spec_dec(b) == spec_dec(b / 10).push(spec_digit_char((b % 10) as int)));
        assert(spec_dec(a).last() == spec_digit_char((a % 10) as int));
        assert(spec_dec(b).last() == spec_digit_char((b % 10) as int));
        lemma_digit_injective((a % 10) as int, (b % 10) as int);
        assert(spec_dec(a).drop_last() =~= spec_dec(a / 10));
        assert(spec_dec(b).drop_last() =~= spec_dec(b / 10));
        lemma_dec_injective(a / 10, b / 10);
    } else {
        assert(spec_dec(a).len() != spec_dec(b).len());
        assert(false);
    }
}

/// The single-character string for one digit.
fn digit_str(d: u64) -> (r: &'static str)
    requires
        d < 10,
    ensures
        r@ =~= seq![spec_digit_char(d as int)],
{
    proof {
        reveal_strlit("0");
        reveal_strlit("1");
        reveal_strlit("2");
        reveal_strlit("3");
        reveal_strlit("4");
        reveal_strlit("5");
        reveal_strlit("6");
        reveal_strlit("7");
        reveal_strlit("8");
        reveal_strlit("9");
    }
    if d == 0 {
        "0"
    } else if d == 1 {
        "1"
    } else if d == 2 {
        "2"
    } else if d == 3 {
        "3"
    } else if d == 4 {
        "4"
    } else if d == 5 {
        "5"
    } else if d == 6 {
        "6"
    } else if d == 7 {
        "7"
    } else if d == 8 {
        "8"
    } else {
        "9"
    }
}

/// Renders a number in decimal.
pub fn dec_string(n: u64) -> (r: String)
    ensures
        r@ == spec_dec(n as nat),
    decreases n,
{
    if n < 10 {
        String::from_str(digit_str(n))
    } else {
        let mut s = dec_string(n / 10);
        s.append(digit_str(n % 10));
        proof {
            assert(spec_dec((n / 10) as nat) + seq![spec_digit_char((n % 10) as int)] =~= spec_dec(
                (n / 10) as nat,
            ).push(spec_digit_char((n % 10) as int)));
        }
        s
    }
}

/// Renders a number in decimal, zero-padded to at least `width` digits.
pub fn padded_dec_string(n: u64, width: usize) -> (r: String)
    ensures
        r@ == spec_padded_dec(n as nat, width as int),
{
    let digits = dec_string(n);
    let dlen = digits.as_str().unicode_len();
    let pad_n = if width > dlen {
        width - dlen
    } else {
        0
    };
    let mut prefix = String::new();
    let mut k: usize = 0;
    proof {
        reveal_strlit("0");
        assert(prefix@ =~= spec_zeros(0));
    }
    while k < pad_n
        invariant
            k <= pad_n,
            prefix@ == spec_zeros(k as nat),
        decreases pad_n - k,
    {
        prefix.append("0");
        proof {
            reveal_strlit("0");
            assert(prefix@ =~= spec_zeros((k + 1) as nat));
        }
        k = k + 1;
    }
    let r = prefix.concat(digits.as_str());
    proof {
        if pad_n == 0 {
            assert(r@ =~= spec_dec(n as nat));
        }
    }
    r
}

/// The index of the last '.' that can split a stem from an extension:
/// the largest index in `[1, i)` holding a '.', or 0 when there is none
/// (a name whose only '.' leads, like a hidden file, keeps it).
pub open spec fn spec_last_dot_before(s: Seq<char>, i: int) -> int
    decreases i,
{
    if i <= 1 {
        0
    } else if s[i - 1] == '.' {
        i - 1
    } else {
        spec_last_dot_before(s, i - 1)
    }
}

/// The file stem of a name: everything before the final '.', the whole
/// name when there is no splitting '.', and "output" for an empty name.
pub open spec fn spec_stem(s: Seq<char>) -> Seq<char> {
    if s.len() == 0 {
        "output"@
    } else {
        let d = spec_last_dot_before(s, s.len() as int);
        if d >= 1 {
            s.take(d)
        } else {
            s
        }
    }
}

/// Extracts the file stem of a name.
pub fn file_stem(name: &String) -> (r: String)
    ensures
        r@ == spec_stem(name@),
{
    let s = name.as_str();
    let len = s.unicode_len();
    if len == 0 {
        return String::from_str("output");
    }
    let mut idx: usize = 0;
    let mut j: usize = 1;
    while j < len
        invariant
            1 <= j <= len,
            idx < j,
            len == name@.len(),
            s@ == name@,
            idx == spec_last_dot_before(name@, j as int),
        decreases len - j,
    {
        if s.get_char(j) == '.' {
            idx = j;
        }
        j = j + 1;
    }
    if idx >= 1 {
        let r = String::from_str(s.substring_char(0, idx));
        proof {
            assert(name@.subrange(0, idx as int) =~= name@.take(idx as int));
        }
        r
    } else {
        proof {
            assert(name@.subrange(0, len as int) =~= name@);
        }
        String::from_str(s.substring_char(0, len))
    }
}

/// What the codec-facing lowercasing returns; the result depends on the
/// characters alone.
pub uninterp spec fn spec_lower_of(s: Seq<char>) -> Seq<char>;

/// Relies on str::to_lowercase: the lowercased string, a function of the
/// characters alone.
#[verifier::external_body]
pub(crate) fn lowercase(s: &str) -> (r: String)
    ensures
        r@ == spec_lower_of(s@),
{
    s.to_lowercase()
}

/// The stem an output file gets before its extension: prefix + original
/// stem + suffix when the original name is kept, else prefix + the
/// zero-padded sequence number `start_index + index`.
pub open spec fn spec_base_name(naming: NamingOptions, original_name: Seq<char>, index: int) -> Seq<
    char,
> {
    if naming.keep_original {
        naming.prefix@ + spec_stem(original_name) + naming.suffix@
    } else {
        naming.prefix@ + spec_padded_dec(
            (naming.start_index + index) as nat,
            naming.pad as int,
        )
    }
}

/// Builds the output stem for one item.
pub fn build_base_name(naming: &NamingOptions, original_name: &String, index: usize) -> (r: String)
    requires
        naming.start_index as int + index as int <= u64::MAX,
    ensures
        r@ == spec_base_name(*naming, original_name@, index as int),
{
    let mut b = naming.prefix.clone();
    if naming.keep_original {
        let stem = file_stem(original_name);
        b.append(stem.as_str());
        b.append(naming.suffix.as_str());
    } else {
        let num: u64 = (naming.start_index as u64) + (index as u64);
        let padded = padded_dec_string(num, naming.pad as usize);
        b.append(padded.as_str());
    }
    b
}

/// Candidate `k` for an output file name: the stem with the extension for
/// `k == 0`, and the stem with `_k` spliced in before the extension for
/// the retries.
pub open spec fn spec_candidate(base: Seq<char>, ext: Seq<char>, k: int) -> Seq<char> {
    if k == 0 {
        base + seq!['.'] + ext
    } else {
        base + seq!['_'] + spec_dec(k as nat) + seq!['.'] + ext
    }
}

/// A candidate name is already taken by one of the existing entries.
pub open spec fn spec_name_taken(existing: Seq<String>, c: Seq<char>) -> bool {
    exists|i: int| 0 <= i < existing.len() && existing[i]@ == c
}

/// Builds candidate `k` as an owned string.
fn candidate_name(base: &String, ext: &String, k: u64) -> (r: String)
    ensures
        r@ == spec_candidate(base@, ext@, k as int),
{
    proof {
        reveal_strlit(".");
        reveal_strlit("_");
    }
    let mut c = base.clone();
    if k > 0 {
        c.append("_");
        let num = dec_string(k);
        c.append(num.as_str());
    }
    c.append(".");
    c.append(ext.as_str());
    proof {
        if k == 0 {
            assert(c@ =~= spec_candidate(base@, ext@, 0));
        } else {
            assert(c@ =~= spec_candidate(base@, ext@, k as int));
        }
    }
    c
}

/// Whether a candidate collides with any existing name.
fn is_taken(existing: &Vec<String>, cand: &String) -> (r: bool)
    ensures
        r == spec_name_taken(existing@, cand@),
{
    let mut i: usize = 0;
    while i < existing.len()
        invariant
            0 <= i <= existing@.len(),
            forall|j: int| 0 <= j < i ==> existing@[j]@ != cand@,
        decreases existing@.len() - i,
    {
        if cand.eq(&existing[i]) {
            return true;
        }
        i = i + 1;
    }
    false
}

/// Distinct counters give distinct candidate names: the spliced decimal
/// renderings would have to match, and decimal rendering is injective.
proof fn lemma_candidate_injective(base: Seq<char>, ext: Seq<char>, j: int, k: int)
    requires
        0 <= j < k,
    ensures
        spec_candidate(base, ext, j) != spec_candidate(base, ext, k),
{
    let cj = spec_candidate(base, ext, j);
    let ck = spec_candidate(base, ext, k);
    lemma_dec_len(k as nat);
    if j == 0 {
        assert(cj.len() < ck.len());
    } else {
        lemma_dec_len(j as nat);
        if cj == ck {
            let dj = spec_dec(j as nat);
            let dk = spec_dec(k as nat);
            assert(cj.len() == ck.len());
            assert(dj.len() == dk.len());
            assert forall|i: int| 0 <= i < dj.len() implies dj[i] == dk[i] by {
                assert(cj[base.len() + 1 + i] == dj[i]);
                assert(ck[base.len() + 1 + i] == dk[i]);
            }
            assert(dj =~= dk);
            lemma_dec_injective(j as nat, k as nat);
            assert(false);
        }
    }
}

/// Against `n` existing names, the first `n + 1` candidates cannot all be
/// taken: they are pairwise distinct, and `n + 1` distinct values cannot
/// all lie among `n` names.
proof fn lemma_free_candidate_exists(existing: Seq<String>, base: Seq<char>, ext: Seq<char>)
    ensures
        exists|kk: int|
            0 <= kk <= existing.len() && !spec_name_taken(
                existing,
                #[trigger] spec_candidate(base, ext, kk),
            ),
{
    broadcast use seq_to_set_is_finite;

    if forall|j: int|
        0 <= j <= existing.len() ==> spec_name_taken(
            existing,
            #[trigger] spec_candidate(base, ext, j),
        ) {

        let n = existing.len() as int;
        let names = existing.map_values(|s: String| s@);
        let cands = Seq::new((n + 1) as nat, |k: int| spec_candidate(base, ext, k));
        assert forall|p: int, q: int| 0 <= p < q < cands.len() implies cands[p] != cands[q] by {
            lemma_candidate_injective(base, ext, p, q);
        }
        assert(cands.no_duplicates());
        cands.unique_seq_to_set();
        assert forall|x: Seq<char>| cands.to_set().contains(x) implies names.to_set().contains(
            x,
        ) by {
            let k = choose|k: int| 0 <= k < cands.len() && cands[k] == x;
            assert(spec_name_taken(existing, spec_candidate(base, ext, k)));
            let i = choose|i: int| 0 <= i < existing.len() && existing[i]@ == x;
            assert(names[i] == x);
            assert(names.contains(x));
        }
        lemma_len_subset(cands.to_set(), names.to_set());
        names.lemma_cardinality_of_set();
        assert(cands.to_set().len() == n + 1);
        assert(names.to_set().len() <= n);
        assert(false);
    }
}

/// An output directory path joined with a file name.
pub open spec fn spec_join(dir: Seq<char>, file: Seq<char>) -> Seq<char> {
    dir + seq!['/'] + file
}

/// A resolved output path: some candidate, joined to the directory, that
/// is free while every earlier candidate is taken.
pub open spec fn spec_resolved(
    r: Seq<char>,
    dir: Seq<char>,
    base: Seq<char>,
    ext: Seq<char>,
    existing: Seq<String>,
) -> bool {
    exists|kk: int|
        0 <= kk && r == spec_join(dir, #[trigger] spec_candidate(base, ext, kk))
            && !spec_name_taken(existing, spec_candidate(base, ext, kk)) && (forall|j: int|
            0 <= j < kk ==> spec_name_taken(existing, #[trigger] spec_candidate(base, ext, j)))
}

/// Joins the output directory and a file name with a separator.
fn join_path(dir: &String, file: &String) -> (r: String)
    ensures
        r@ == spec_join(dir@, file@),
{
    proof {
        reveal_strlit("/");
    }
    let mut p = dir.clone();
    p.append("/");
    p.append(file.as_str());
    proof {
        assert(p@ =~= spec_join(dir@, file@));
    }
    p
}

/// Resolves the output path for one item. With `overwrite` the output is
/// the original path itself. Otherwise the stem follows the naming rules,
/// the lowercased format becomes the extension, and the first candidate
/// free among the existing names is chosen, counting `_1`, `_2`, ... from
/// the plain name.
pub fn generate_output_path(
    original_name: &String,
    output_dir: &String,
    format: &String,
    naming: &NamingOptions,
    index: usize,
    overwrite: bool,
    original_path: &String,
    existing: &Vec<String>,
) -> (r: String)
    requires
        naming.start_index as int + index as int <= u64::MAX,
        existing@.len() < usize::MAX,
    ensures
        overwrite ==> r@ == original_path@,
        !overwrite ==> spec_resolved(
            r@,
            output_dir@,
            spec_base_name(*naming, original_name@, index as int),
            spec_lower_of(format@),
            existing@,
        ),
{
    if overwrite {
        return original_path.clone();
    }
    let base = build_base_name(naming, original_name, index);
    let ext = lowercase(format.as_str());
    let n = existing.len();
    let mut k: usize = 0;
    while k <= n
        invariant
            !overwrite,
            k <= n + 1,
            n == existing@.len(),
            n < usize::MAX,
            base@ == spec_base_name(*naming, original_name@, index as int),
            ext@ == spec_lower_of(format@),
            forall|j: int|
                0 <= j < k ==> spec_name_taken(existing@, #[trigger] spec_candidate(base@, ext@, j)),
        decreases n + 1 - k,
    {
        let cand = candidate_name(&base, &ext, k as u64);
        if !is_taken(existing, &cand) {
            return join_path(output_dir, &cand);
        }
        k = k + 1;
    }
    proof {
        lemma_free_candidate_exists(existing@, base@, ext@);
    }
    join_path(output_dir, &base)
}

} // verus!
