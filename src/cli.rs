use vstd::prelude::*;

use crate::error::{is_arg_error, Error};
use crate::csv::{join_on, lemma_split_join, split_on};
use crate::error::CustomError;
use crate::sheet::{spec_sheet_of, invalid_sheet_number_msg, MatchType, SheetType};

verus! {

pub open spec fn conflicting_flags_msg() -> Seq<char> {
    "prefix and suffix cannot be specified at the same time."@
}

pub open spec fn flags_without_words_msg() -> Seq<char> {
    "You can specify prefix or suffix with search words."@
}

pub open spec fn invalid_pos_msg() -> Seq<char> {
    "Invalid pos value. Choose pos in [\"a\", \"c\", \"d\", \"e\", \"f\", \"g\", \"i\", \"j\", \"m\", \"n\", \"p\", \"r\", \"t\", \"u\", \"v\", \"x\", \"z\"]"@
}

/// What `resolve_match_type` returns: the conflicting flags and flags
/// without words are argument errors; otherwise the flags pick the match.
pub open spec fn match_outcome(has_words: bool, prefix: bool, suffix: bool, r: Result<Option<MatchType>, Error>) -> bool {
    &&& has_words && prefix && suffix ==> r is Err && is_arg_error(r->Err_0, conflicting_flags_msg())
    &&& !has_words && (prefix || suffix) ==> r is Err && is_arg_error(r->Err_0, flags_without_words_msg())
    &&& !has_words && !prefix && !suffix ==> r == Ok::<Option<MatchType>, Error>(None)
    &&& has_words && prefix && !suffix ==> r == Ok::<Option<MatchType>, Error>(Some(MatchType::Prefix))
    &&& has_words && !prefix && suffix ==> r == Ok::<Option<MatchType>, Error>(Some(MatchType::Suffix))
    &&& has_words && !prefix && !suffix ==> r == Ok::<Option<MatchType>, Error>(Some(MatchType::All))
}

/// How search words are matched, from whether words were given and the
/// `--prefix` and `--suffix` flags; `None` when there is nothing to search.
pub fn resolve_match_type(has_words: bool, prefix: bool, suffix: bool) -> (r: Result<
    Option<MatchType>,
    Error,
>)
    ensures
        match_outcome(has_words, prefix, suffix, r),
{
    if has_words {
        if prefix && suffix {
            Err(Error::arg("prefix and suffix cannot be specified at the same time."))
        } else if prefix {
            Ok(Some(MatchType::Prefix))
        } else if suffix {
            Ok(Some(MatchType::Suffix))
        } else {
            Ok(Some(MatchType::All))
        }
    } else if prefix || suffix {
        Err(Error::arg("You can specify prefix or suffix with search words."))
    } else {
        Ok(None)
    }
}

/// The part-of-speech tags of the corpus.
pub open spec fn is_pos_char(c: char) -> bool {
    c == 'a' || c == 'c' || c == 'd' || c == 'e' || c == 'f' || c == 'g' || c == 'i' || c == 'j'
        || c == 'm' || c == 'n' || c == 'p' || c == 'r' || c == 't' || c == 'u' || c == 'v'
        || c == 'x' || c == 'z'
}

pub open spec fn is_pos_tag(s: Seq<char>) -> bool {
    s.len() == 1 && is_pos_char(s[0])
}

/// Whether `s` is one of the part-of-speech tags.
pub fn pos_tag_valid(s: &str) -> (r: bool)
    ensures
        r == is_pos_tag(s@),
{
    if s.unicode_len() != 1 {
        return false;
    }
    let c = s.get_char(0);
    c == 'a' || c == 'c' || c == 'd' || c == 'e' || c == 'f' || c == 'g' || c == 'i' || c == 'j'
        || c == 'm' || c == 'n' || c == 'p' || c == 'r' || c == 't' || c == 'u' || c == 'v'
        || c == 'x' || c == 'z'
}

/// Accepts a list of part-of-speech filters only if each is a known tag.
pub fn validate_pos_list(pos_list: &Vec<String>) -> (r: Result<(), Error>)
    ensures
        r is Ok <==> forall|k: int| 0 <= k < pos_list.len() ==> is_pos_tag(#[trigger] pos_list[k]@),
        r is Err ==> is_arg_error(r->Err_0, invalid_pos_msg()),
{
    let mut i: usize = 0;
    while i < pos_list.len()
        invariant
            0 <= i <= pos_list.len(),
            forall|k: int| 0 <= k < i ==> is_pos_tag(#[trigger] pos_list[k]@),
        decreases pos_list.len() - i,
    {
        if !pos_tag_valid(pos_list[i].as_str()) {
            return Err(Error::arg(
                "Invalid pos value. Choose pos in [\"a\", \"c\", \"d\", \"e\", \"f\", \"g\", \"i\", \"j\", \"m\", \"n\", \"p\", \"r\", \"t\", \"u\", \"v\", \"x\", \"z\"]",
            ));
        }
        i += 1;
    }
    Ok(())
}

/// The fields of a comma-separated list.
pub open spec fn split_fields_spec(s: Seq<char>) -> Seq<Seq<char>> {
    split_on(s, ',')
}

/// Splits a comma-separated list into its fields, keeping empty ones: the
/// fields hold no comma and, joined with commas, give back `s`.
pub fn split_list(s: &str) -> (r: Vec<String>)
    ensures
        r.len() >= 1,
        join_on(r.deep_view(), ',') == s@,
        forall|k: int| 0 <= k < r.len() ==> !(#[trigger] r[k]@).contains(','),
        r.deep_view() == split_fields_spec(s@),
{
    let n = s.unicode_len();
    let mut done: Vec<String> = Vec::new();
    let mut start: usize = 0;
    let mut i: usize = 0;
    while i < n
        invariant
            n == s@.len(),
            0 <= start <= i <= n,
            join_on(done.deep_view().push(s@.subrange(start as int, i as int)), ',') == s@.take(i as int),
            forall|k: int| 0 <= k < done.len() ==> !(#[trigger] done[k]@).contains(','),
            !s@.subrange(start as int, i as int).contains(','),
        decreases n - i,
    {
        let c = s.get_char(i);
        let ghost prev = done.deep_view();
        if c == ',' {
            let field = String::from_str(s.substring_char(start, i));
            done.push(field);
            proof {
                let e = s@.subrange(i + 1, i + 1);
                assert(e =~= Seq::<char>::empty());
                assert(done.deep_view() =~= prev.push(s@.subrange(start as int, i as int)));
                assert(done.deep_view().push(e).drop_last() =~= done.deep_view());
                assert(s@.take(i + 1) =~= s@.take(i as int) + seq![','] + e);
                assert(!e.contains(','));
            }
            start = i + 1;
        } else {
            proof {
                let a = s@.subrange(start as int, i as int);
                let b = s@.subrange(start as int, i + 1);
                assert(b =~= a.push(c));
                assert(prev.push(b).drop_last() =~= prev);
                assert(prev.push(a).drop_last() =~= prev);
                assert(s@.take(i + 1) =~= s@.take(i as int).push(c));
                if prev.len() == 0 {
                    assert(join_on(prev.push(b), ',') == b);
                } else {
                    assert(join_on(prev.push(b), ',') =~= join_on(prev, ',') + seq![','] + b);
                }
                assert forall|j: int| 0 <= j < b.len() implies b[j] != ',' by {
                    if j < a.len() {
                        assert(a[j] == b[j]);
                    }
                }
            }
        }
        i += 1;
    }
    let last = String::from_str(s.substring_char(start, n));
    let ghost prev = done.deep_view();
    done.push(last);
    proof {
        assert(done.deep_view() =~= prev.push(s@.subrange(start as int, n as int)));
        assert(s@.take(n as int) =~= s@);
        let f = done.deep_view();
        assert forall|k: int| 0 <= k < f.len() implies !(#[trigger] f[k]).contains(',') by {
            assert(f[k] == done[k]@);
        }
        lemma_split_join(f, ',');
    }
    done
}

pub open spec fn is_digit(c: char) -> bool {
    '0' <= c <= '9'
}

/// The value of a string of decimal digits.
pub open spec fn digits_value(s: Seq<char>) -> nat
    decreases s.len(),
{
    if s.len() == 0 {
        0
    } else {
        digits_value(s.drop_last()) * 10 + (s.last() as nat - '0' as nat) as nat
    }
}

/// The digits of an unsigned decimal numeral, after an optional `+`.
pub open spec fn numeral_digits(s: Seq<char>) -> Seq<char> {
    if s.len() > 0 && s[0] == '+' {
        s.drop_first()
    } else {
        s
    }
}

/// Whether `s` is an unsigned decimal numeral whose value fits in `usize`.
pub open spec fn is_usize_numeral(s: Seq<char>) -> bool {
    let d = numeral_digits(s);
    &&& d.len() > 0
    &&& forall|i: int| 0 <= i < d.len() ==> is_digit(#[trigger] d[i])
    &&& digits_value(d) <= usize::MAX
}

/// Relies on `str::parse::<usize>`: an optional `+` and then decimal digits
/// whose value fits, and nothing else, parse to that value. The error is
/// returned as its text.
#[verifier::external_body]
fn parse_usize(s: &str) -> (r: Result<usize, String>)
    ensures
        r is Ok <==> is_usize_numeral(s@),
        r is Ok ==> r->Ok_0 as nat == digits_value(numeral_digits(s@)),
{
    s.parse::<usize>().map_err(|e| e.to_string())
}

pub open spec fn sheets_syntax_msg() -> Seq<char> {
    "sheets must be integer or list of integer."@
}

/// Reads a comma-separated list of 1-based sheet numbers. Every field must
/// be a number before any is checked to name a sheet.
#[verifier::loop_isolation(false)]
pub fn parse_sheets(s: &str) -> (r: Result<Vec<SheetType>, Error>)
    ensures
        ({
            let fields = split_fields_spec(s@);
            let syntax_ok = forall|k: int| 0 <= k < fields.len() ==> is_usize_numeral(#[trigger] fields[k]);
            let sheet_ok = forall|k: int| 0 <= k < fields.len() ==> (#[trigger] spec_sheet_of(
                digits_value(numeral_digits(fields[k])),
            )) is Some;
            &&& !syntax_ok ==> r is Err && r->Err_0 is ArgError && r->Err_0->ArgError_0.msg@
                == sheets_syntax_msg() && r->Err_0->ArgError_0.inner is Some
            &&& syntax_ok && !sheet_ok ==> r is Err && is_arg_error(r->Err_0, invalid_sheet_number_msg())
            &&& syntax_ok && sheet_ok ==> r is Ok && r->Ok_0@.len() == fields.len() && forall|k: int|
                0 <= k < fields.len() ==> Some(#[trigger] r->Ok_0@[k]) == spec_sheet_of(
                    digits_value(numeral_digits(fields[k])),
                )
        }),
{
    let fields = split_list(s);
    let ghost fs = fields.deep_view();
    assert(fs == split_fields_spec(s@));
    let mut numbers: Vec<usize> = Vec::new();
    let mut i: usize = 0;
    while i < fields.len()
        invariant
            0 <= i <= fields.len(),
            fs == fields.deep_view(),
            numbers.len() == i,
            forall|k: int| 0 <= k < i ==> is_usize_numeral(#[trigger] fs[k]),
            forall|k: int| 0 <= k < i ==> numbers[k] as nat == digits_value(numeral_digits(#[trigger] fs[k])),
        decreases fields.len() - i,
    {
        match parse_usize(fields[i].as_str()) {
            Ok(n) => numbers.push(n),
            Err(e) => {
                assert(!is_usize_numeral(fs[i as int]));
                return Err(Error::ArgError(
                    CustomError::new("sheets must be integer or list of integer.", e.as_str()),
                ));
            },
        }
        i += 1;
    }
    let mut sheets: Vec<SheetType> = Vec::new();
    let mut j: usize = 0;
    while j < numbers.len()
        invariant
            0 <= j <= numbers.len(),
            numbers.len() == fs.len(),
            fs == fields.deep_view(),
            forall|k: int| 0 <= k < fs.len() ==> is_usize_numeral(#[trigger] fs[k]),
            forall|k: int| 0 <= k < fs.len() ==> numbers[k] as nat == digits_value(numeral_digits(#[trigger] fs[k])),
            sheets.len() == j,
            forall|k: int| 0 <= k < j ==> Some(#[trigger] sheets@[k]) == spec_sheet_of(numbers[k] as nat),
        decreases numbers.len() - j,
    {
        match SheetType::from_number(numbers[j]) {
            Ok(t) => sheets.push(t),
            Err(e) => {
                assert(spec_sheet_of(digits_value(numeral_digits(fs[j as int]))) is None);
                return Err(Error::ArgError(e));
            },
        }
        j += 1;
    }
    assert forall|k: int| 0 <= k < fs.len() implies Some(#[trigger] sheets@[k]) == spec_sheet_of(
        digits_value(numeral_digits(fs[k])),
    ) by {
        assert(numbers[k] as nat == digits_value(numeral_digits(fs[k])));
    }
    assert forall|k: int| 0 <= k < fs.len() implies (#[trigger] spec_sheet_of(
        digits_value(numeral_digits(fs[k])),
    )) is Some by {
        assert(Some(sheets@[k]) == spec_sheet_of(numbers[k] as nat));
        assert(numbers[k] as nat == digits_value(numeral_digits(fs[k])));
    }
    assert(sheets@.len() == fs.len());
    Ok(sheets)
}

/// Checks the arguments of the `query` command that need no table: every
/// part-of-speech filter must be a known tag, then the flags must fit the
/// words. Gives how the words are matched.
pub fn query_args(has_words: bool, prefix: bool, suffix: bool, pos_list: Option<&Vec<String>>) -> (r:
    Result<Option<MatchType>, Error>)
    ensures
        ({
            let pos_ok = match pos_list {
                Some(p) => forall|k: int| 0 <= k < p.len() ==> is_pos_tag(#[trigger] p[k]@),
                None => true,
            };
            &&& !pos_ok ==> r is Err && is_arg_error(r->Err_0, invalid_pos_msg())
            &&& pos_ok ==> match_outcome(has_words, prefix, suffix, r)
        }),
{
    if let Some(p) = pos_list {
        validate_pos_list(p)?;
    }
    resolve_match_type(has_words, prefix, suffix)
}

} // verus!
