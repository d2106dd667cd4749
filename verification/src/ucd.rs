//! The per-codepoint metadata model: the closed set of Unicode general
//! categories with printability and descriptive names, the codepoint
//! record that a matched ordinal indexes into, and the deduplicated
//! numeric-value entries those records reference.

use vstd::prelude::*;

use crate::string_search::SearchResult;
use crate::UcdError;

verus! {

/// The closed set of Unicode general categories: seventeen normative
/// tags (`Lu` through `Cn`) and thirteen informative ones.
#[derive(Debug, Eq, PartialEq, Hash, Clone, Copy, Structural)]
pub enum Category {
    /// Letter, Uppercase
    Lu,
    /// Letter, Lowercase
    Ll,
    /// Letter, Titlecase
    Lt,
    /// Mark, Non-Spacing
    Mn,
    /// Mark, Spacing Combining
    Mc,
    /// Mark, Enclosing
    Me,
    /// Number, Decimal Digit
    Nd,
    /// Number, Letter
    Nl,
    /// Number, Other
    No,
    /// Separator, Space
    Zs,
    /// Separator, Line
    Zl,
    /// Separator, Paragraph
    Zp,
    /// Other, Control
    Cc,
    /// Other, Format
    Cf,
    /// Other, Surrogate
    Cs,
    /// Other, Private Use
    Co,
    /// Other, Not Assigned
    Cn,
    /// Letter, Modifier
    Lm,
    /// Letter, Other
    Lo,
    /// Punctuation, Connector
    Pc,
    /// Punctuation, Dash
    Pd,
    /// Punctuation, Open
    Ps,
    /// Punctuation, Close
    Pe,
    /// Punctuation, Initial quote
    Pi,
    /// Punctuation, Final quote
    Pf,
    /// Punctuation, Other
    Po,
    /// Symbol, Math
    Sm,
    /// Symbol, Currency
    Sc,
    /// Symbol, Modifier
    Sk,
    /// Symbol, Other
    So,
}

/// Printability is a pure function of the category tag alone: the five
/// `C*` tags are out, and so is `Lm` — letter modifiers are deliberately
/// not printed, an explicit design choice rather than an omission.
pub open spec fn printable_spec(c: Category) -> bool {
    match c {
        Category::Cc | Category::Cf | Category::Cs | Category::Co | Category::Cn => false,
        Category::Lm => false,
        _ => true,
    }
}

/// The descriptive, human-readable name of each category tag.
pub open spec fn name_spec(c: Category) -> Seq<char> {
    match c {
        Category::Lu => "Letter, Uppercase"@,
        Category::Ll => "Letter, Lowercase"@,
        Category::Lt => "Letter, Titlecase"@,
        Category::Mn => "Mark, Non-Spacing"@,
        Category::Mc => "Mark, Spacing Combining"@,
        Category::Me => "Mark, Enclosing"@,
        Category::Nd => "Number, Decimal Digit"@,
        Category::Nl => "Number, Letter"@,
        Category::No => "Number, Other"@,
        Category::Zs => "Separator, Space"@,
        Category::Zl => "Separator, Line"@,
        Category::Zp => "Separator, Paragraph"@,
        Category::Cc => "Other, Control"@,
        Category::Cf => "Other, Format"@,
        Category::Cs => "Other, Surrogate"@,
        Category::Co => "Other, Private Use"@,
        Category::Cn => "Other, Not Assigned"@,
        Category::Lm => "Letter, Modifier"@,
        Category::Lo => "Letter, Other"@,
        Category::Pc => "Punctuation, Connector"@,
        Category::Pd => "Punctuation, Dash"@,
        Category::Ps => "Punctuation, Open"@,
        Category::Pe => "Punctuation, Close"@,
        Category::Pi => "Punctuation, Initial quote"@,
        Category::Pf => "Punctuation, Final quote"@,
        Category::Po => "Punctuation, Other"@,
        Category::Sm => "Symbol, Math"@,
        Category::Sc => "Symbol, Currency"@,
        Category::Sk => "Symbol, Modifier"@,
        Category::So => "Symbol, Other"@,
    }
}

/// The fixed two-letter code of each category tag.
pub open spec fn code_spec(c: Category) -> Seq<char> {
    match c {
        Category::Lu => "Lu"@,
        Category::Ll => "Ll"@,
        Category::Lt => "Lt"@,
        Category::Mn => "Mn"@,
        Category::Mc => "Mc"@,
        Category::Me => "Me"@,
        Category::Nd => "Nd"@,
        Category::Nl => "Nl"@,
        Category::No => "No"@,
        Category::Zs => "Zs"@,
        Category::Zl => "Zl"@,
        Category::Zp => "Zp"@,
        Category::Cc => "Cc"@,
        Category::Cf => "Cf"@,
        Category::Cs => "Cs"@,
        Category::Co => "Co"@,
        Category::Cn => "Cn"@,
        Category::Lm => "Lm"@,
        Category::Lo => "Lo"@,
        Category::Pc => "Pc"@,
        Category::Pd => "Pd"@,
        Category::Ps => "Ps"@,
        Category::Pe => "Pe"@,
        Category::Pi => "Pi"@,
        Category::Pf => "Pf"@,
        Category::Po => "Po"@,
        Category::Sm => "Sm"@,
        Category::Sc => "Sc"@,
        Category::Sk => "Sk"@,
        Category::So => "So"@,
    }
}

/// The category whose two-letter code is `s`, or `None` if `s` is not
/// one of the thirty recognized tags.
pub open spec fn parse_spec(s: Seq<char>) -> Option<Category> {
    if s == "Lu"@ {
        Some(Category::Lu)
    } else if s == "Ll"@ {
        Some(Category::Ll)
    } else if s == "Lt"@ {
        Some(Category::Lt)
    } else if s == "Mn"@ {
        Some(Category::Mn)
    } else if s == "Mc"@ {
        Some(Category::Mc)
    } else if s == "Me"@ {
        Some(Category::Me)
    } else if s == "Nd"@ {
        Some(Category::Nd)
    } else if s == "Nl"@ {
        Some(Category::Nl)
    } else if s == "No"@ {
        Some(Category::No)
    } else if s == "Zs"@ {
        Some(Category::Zs)
    } else if s == "Zl"@ {
        Some(Category::Zl)
    } else if s == "Zp"@ {
        Some(Category::Zp)
    } else if s == "Cc"@ {
        Some(Category::Cc)
    } else if s == "Cf"@ {
        Some(Category::Cf)
    } else if s == "Cs"@ {
        Some(Category::Cs)
    } else if s == "Co"@ {
        Some(Category::Co)
    } else if s == "Cn"@ {
        Some(Category::Cn)
    } else if s == "Lm"@ {
        Some(Category::Lm)
    } else if s == "Lo"@ {
        Some(Category::Lo)
    } else if s == "Pc"@ {
        Some(Category::Pc)
    } else if s == "Pd"@ {
        Some(Category::Pd)
    } else if s == "Ps"@ {
        Some(Category::Ps)
    } else if s == "Pe"@ {
        Some(Category::Pe)
    } else if s == "Pi"@ {
        Some(Category::Pi)
    } else if s == "Pf"@ {
        Some(Category::Pf)
    } else if s == "Po"@ {
        Some(Category::Po)
    } else if s == "Sm"@ {
        Some(Category::Sm)
    } else if s == "Sc"@ {
        Some(Category::Sc)
    } else if s == "Sk"@ {
        Some(Category::Sk)
    } else if s == "So"@ {
        Some(Category::So)
    } else {
        None
    }
}

proof fn reveal_category_codes()
    ensures
        "Lu"@ =~= seq!['L', 'u'],
        "Ll"@ =~= seq!['L', 'l'],
        "Lt"@ =~= seq!['L', 't'],
        "Mn"@ =~= seq!['M', 'n'],
        "Mc"@ =~= seq!['M', 'c'],
        "Me"@ =~= seq!['M', 'e'],
        "Nd"@ =~= seq!['N', 'd'],
        "Nl"@ =~= seq!['N', 'l'],
        "No"@ =~= seq!['N', 'o'],
        "Zs"@ =~= seq!['Z', 's'],
        "Zl"@ =~= seq!['Z', 'l'],
        "Zp"@ =~= seq!['Z', 'p'],
        "Cc"@ =~= seq!['C', 'c'],
        "Cf"@ =~= seq!['C', 'f'],
        "Cs"@ =~= seq!['C', 's'],
        "Co"@ =~= seq!['C', 'o'],
        "Cn"@ =~= seq!['C', 'n'],
        "Lm"@ =~= seq!['L', 'm'],
        "Lo"@ =~= seq!['L', 'o'],
        "Pc"@ =~= seq!['P', 'c'],
        "Pd"@ =~= seq!['P', 'd'],
        "Ps"@ =~= seq!['P', 's'],
        "Pe"@ =~= seq!['P', 'e'],
        "Pi"@ =~= seq!['P', 'i'],
        "Pf"@ =~= seq!['P', 'f'],
        "Po"@ =~= seq!['P', 'o'],
        "Sm"@ =~= seq!['S', 'm'],
        "Sc"@ =~= seq!['S', 'c'],
        "Sk"@ =~= seq!['S', 'k'],
        "So"@ =~= seq!['S', 'o'],
{
    reveal_strlit("Lu");
    reveal_strlit("Ll");
    reveal_strlit("Lt");
    reveal_strlit("Mn");
    reveal_strlit("Mc");
    reveal_strlit("Me");
    reveal_strlit("Nd");
    reveal_strlit("Nl");
    reveal_strlit("No");
    reveal_strlit("Zs");
    reveal_strlit("Zl");
    reveal_strlit("Zp");
    reveal_strlit("Cc");
    reveal_strlit("Cf");
    reveal_strlit("Cs");
    reveal_strlit("Co");
    reveal_strlit("Cn");
    reveal_strlit("Lm");
    reveal_strlit("Lo");
    reveal_strlit("Pc");
    reveal_strlit("Pd");
    reveal_strlit("Ps");
    reveal_strlit("Pe");
    reveal_strlit("Pi");
    reveal_strlit("Pf");
    reveal_strlit("Po");
    reveal_strlit("Sm");
    reveal_strlit("Sc");
    reveal_strlit("Sk");
    reveal_strlit("So");
}

/// Parsing the two-letter code of any category yields that category back.
pub proof fn lemma_parse_code_roundtrip(c: Category)
    ensures
        parse_spec(code_spec(c)) == Some(c),
{
    reveal_category_codes();
}

impl Category {
    /// Whether characters of this category are shown in search output.
    pub fn is_printable(&self) -> (r: bool)
        ensures
            r == printable_spec(*self),
    {
        match self {
            Category::Cc | Category::Cf | Category::Cs | Category::Co | Category::Cn => false,
            Category::Lm => false,
            _ => true,
        }
    }

    /// The descriptive name of this category.
    pub fn name(&self) -> (r: &'static str)
        ensures
            r@ == name_spec(*self),
    {
        match self {
            Category::Lu => "Letter, Uppercase",
            Category::Ll => "Letter, Lowercase",
            Category::Lt => "Letter, Titlecase",
            Category::Mn => "Mark, Non-Spacing",
            Category::Mc => "Mark, Spacing Combining",
            Category::Me => "Mark, Enclosing",
            Category::Nd => "Number, Decimal Digit",
            Category::Nl => "Number, Letter",
            Category::No => "Number, Other",
            Category::Zs => "Separator, Space",
            Category::Zl => "Separator, Line",
            Category::Zp => "Separator, Paragraph",
            Category::Cc => "Other, Control",
            Category::Cf => "Other, Format",
            Category::Cs => "Other, Surrogate",
            Category::Co => "Other, Private Use",
            Category::Cn => "Other, Not Assigned",
            Category::Lm => "Letter, Modifier",
            Category::Lo => "Letter, Other",
            Category::Pc => "Punctuation, Connector",
            Category::Pd => "Punctuation, Dash",
            Category::Ps => "Punctuation, Open",
            Category::Pe => "Punctuation, Close",
            Category::Pi => "Punctuation, Initial quote",
            Category::Pf => "Punctuation, Final quote",
            Category::Po => "Punctuation, Other",
            Category::Sm => "Symbol, Math",
            Category::Sc => "Symbol, Currency",
            Category::Sk => "Symbol, Modifier",
            Category::So => "Symbol, Other",
        }
    }

    /// The two-letter code of this category, as written in the Unicode
    /// Character Database.
    pub fn code(&self) -> (r: &'static str)
        ensures
            r@ == code_spec(*self),
    {
        match self {
            Category::Lu => "Lu",
            Category::Ll => "Ll",
            Category::Lt => "Lt",
            Category::Mn => "Mn",
            Category::Mc => "Mc",
            Category::Me => "Me",
            Category::Nd => "Nd",
            Category::Nl => "Nl",
            Category::No => "No",
            Category::Zs => "Zs",
            Category::Zl => "Zl",
            Category::Zp => "Zp",
            Category::Cc => "Cc",
            Category::Cf => "Cf",
            Category::Cs => "Cs",
            Category::Co => "Co",
            Category::Cn => "Cn",
            Category::Lm => "Lm",
            Category::Lo => "Lo",
            Category::Pc => "Pc",
            Category::Pd => "Pd",
            Category::Ps => "Ps",
            Category::Pe => "Pe",
            Category::Pi => "Pi",
            Category::Pf => "Pf",
            Category::Po => "Po",
            Category::Sm => "Sm",
            Category::Sc => "Sc",
            Category::Sk => "Sk",
            Category::So => "So",
        }
    }

    /// Parses a two-letter category code; any string that is not one of
    /// the thirty recognized tags is rejected as an unknown category.
    pub fn parse(code: &str) -> (r: Result<Category, UcdError>)
        ensures
            r is Ok <==> parse_spec(code@) is Some,
            r is Ok ==> parse_spec(code@) == Some(r->Ok_0),
            r is Err ==> r->Err_0 == UcdError::UnknownCategory,
    {
        proof {
            reveal_category_codes();
        }
        let n = code.unicode_len();
        if n != 2 {
            return Err(UcdError::UnknownCategory);
        }
        let c0 = code.get_char(0);
        let c1 = code.get_char(1);
        let r = match (c0, c1) {
            ('L', 'u') => Ok(Category::Lu),
            ('L', 'l') => Ok(Category::Ll),
            ('L', 't') => Ok(Category::Lt),
            ('M', 'n') => Ok(Category::Mn),
            ('M', 'c') => Ok(Category::Mc),
            ('M', 'e') => Ok(Category::Me),
            ('N', 'd') => Ok(Category::Nd),
            ('N', 'l') => Ok(Category::Nl),
            ('N', 'o') => Ok(Category::No),
            ('Z', 's') => Ok(Category::Zs),
            ('Z', 'l') => Ok(Category::Zl),
            ('Z', 'p') => Ok(Category::Zp),
            ('C', 'c') => Ok(Category::Cc),
            ('C', 'f') => Ok(Category::Cf),
            ('C', 's') => Ok(Category::Cs),
            ('C', 'o') => Ok(Category::Co),
            ('C', 'n') => Ok(Category::Cn),
            ('L', 'm') => Ok(Category::Lm),
            ('L', 'o') => Ok(Category::Lo),
            ('P', 'c') => Ok(Category::Pc),
            ('P', 'd') => Ok(Category::Pd),
            ('P', 's') => Ok(Category::Ps),
            ('P', 'e') => Ok(Category::Pe),
            ('P', 'i') => Ok(Category::Pi),
            ('P', 'f') => Ok(Category::Pf),
            ('P', 'o') => Ok(Category::Po),
            ('S', 'm') => Ok(Category::Sm),
            ('S', 'c') => Ok(Category::Sc),
            ('S', 'k') => Ok(Category::Sk),
            ('S', 'o') => Ok(Category::So),
            _ => Err(UcdError::UnknownCategory),
        };
        proof {
            if r is Ok {
                assert(code@ =~= code_spec(r->Ok_0));
            }
        }
        r
    }
}

/// `v` is a Unicode scalar value: not a surrogate, and at most 0x10FFFF.
pub open spec fn valid_scalar(v: u32) -> bool {
    v < 0xD800 || (0xE000 <= v && v <= 0x10FFFF)
}

/// Relies on char::from_u32: it returns `Some` exactly when the argument
/// is a Unicode scalar value (not a surrogate, at most 0x10FFFF), and the
/// returned char then has that value.
#[verifier::external_body]
fn char_from_u32(v: u32) -> (r: Option<char>)
    ensures
        r is Some <==> valid_scalar(v),
        r is Some ==> r->0 as u32 == v,
{
    char::from_u32(v)
}

/// One per-codepoint record of the metadata store, ordered by codepoint
/// ascending; its index in the record array is the ordinal that the name
/// table assigns to it. Absent references are explicit options, so a
/// decoding fault can never masquerade as a real value.
#[derive(Debug, Clone, Copy)]
pub struct UnicodeDatum {
    /// The Unicode codepoint.
    pub cdpt: u32,
    /// The general category of the codepoint.
    pub cat: Category,
    /// Index of this codepoint's numeric value in the value array, if any.
    pub val: Option<usize>,
    /// Codepoint of the uppercase conversion, if any.
    pub upper: Option<u32>,
    /// Codepoint of the lowercase conversion, if any.
    pub lower: Option<u32>,
}

impl UnicodeDatum {
    /// The record at ordinal `idx` of the metadata store. An ordinal past
    /// the end of the store indicates a corrupted or mismatched generated
    /// table and is reported as `OutOfRange`.
    pub fn from_idx<'a>(data: &'a [UnicodeDatum], idx: usize) -> (r: Result<
        &'a UnicodeDatum,
        UcdError,
    >)
        ensures
            r is Ok <==> idx < data@.len(),
            r is Ok ==> *r->Ok_0 == data@[idx as int],
            r is Err ==> r->Err_0 == UcdError::OutOfRange,
    {
        if idx < data.len() {
            Ok(&data[idx])
        } else {
            Err(UcdError::OutOfRange)
        }
    }

    /// The character this record describes. A codepoint field that holds
    /// no valid scalar value indicates a corrupted generated table and is
    /// reported as `InvalidCodepoint`.
    pub fn as_char(&self) -> (r: Result<char, UcdError>)
        ensures
            r is Ok <==> valid_scalar(self.cdpt),
            r is Ok ==> r->Ok_0 as u32 == self.cdpt,
            r is Err ==> r->Err_0 == UcdError::InvalidCodepoint,
    {
        match char_from_u32(self.cdpt) {
            Some(c) => Ok(c),
            None => Err(UcdError::InvalidCodepoint),
        }
    }

    /// The uppercase conversion of this record's character, or `'-'` when
    /// it has none.
    pub fn upper_char(&self) -> (r: Result<char, UcdError>)
        ensures
            self.upper is None ==> r is Ok && r->Ok_0 == '-',
            self.upper is Some ==> (r is Ok <==> valid_scalar(self.upper->0)),
            self.upper is Some && r is Ok ==> r->Ok_0 as u32 == self.upper->0,
            r is Err ==> r->Err_0 == UcdError::InvalidCodepoint,
    {
        match self.upper {
            None => Ok('-'),
            Some(u) => match char_from_u32(u) {
                Some(c) => Ok(c),
                None => Err(UcdError::InvalidCodepoint),
            },
        }
    }

    /// The lowercase conversion of this record's character, or `'-'` when
    /// it has none.
    pub fn lower_char(&self) -> (r: Result<char, UcdError>)
        ensures
            self.lower is None ==> r is Ok && r->Ok_0 == '-',
            self.lower is Some ==> (r is Ok <==> valid_scalar(self.lower->0)),
            self.lower is Some && r is Ok ==> r->Ok_0 as u32 == self.lower->0,
            r is Err ==> r->Err_0 == UcdError::InvalidCodepoint,
    {
        match self.lower {
            None => Ok('-'),
            Some(u) => match char_from_u32(u) {
                Some(c) => Ok(c),
                None => Err(UcdError::InvalidCodepoint),
            },
        }
    }

    /// The numeric value this record references in the value array, or
    /// `None` when it has none. A reference past the end of the array
    /// indicates a corrupted generated table and is reported as
    /// `OutOfRange`.
    pub fn value<'a>(&self, values: &'a [UnicodeDatumValue]) -> (r: Result<
        Option<&'a UnicodeDatumValue>,
        UcdError,
    >)
        ensures
            self.val is None ==> r is Ok && r->Ok_0 is None,
            self.val is Some ==> (r is Ok <==> self.val->0 < values@.len()),
            self.val is Some && r is Ok ==> r->Ok_0 is Some && *r->Ok_0->0 == values@[self.val->0
                as int],
            r is Err ==> r->Err_0 == UcdError::OutOfRange,
    {
        match self.val {
            None => Ok(None),
            Some(idx) => {
                if idx < values.len() {
                    Ok(Some(&values[idx]))
                } else {
                    Err(UcdError::OutOfRange)
                }
            },
        }
    }
}

/// A character's numeric property, expressed as digit, numerator and
/// denominator: a denominator of 1 means an integer value. Deduplicated —
/// several codepoints may reference the same entry.
#[derive(Debug, Clone, Copy)]
pub struct UnicodeDatumValue {
    /// The digit value, for codepoints that are digits.
    pub digit: Option<i32>,
    /// Numerator of the numeric value.
    pub num: i64,
    /// Denominator of the numeric value.
    pub den: i32,
}

/// The rendered form of a numeric value: the numerator in decimal when
/// the denominator is 1, `"<num>/<den>"` otherwise.
pub open spec fn value_str_spec(v: UnicodeDatumValue) -> Seq<char> {
    if v.den == 1 {
        crate::decimal::int_str(v.num as int)
    } else {
        crate::decimal::int_str(v.num as int) + seq!['/'] + crate::decimal::int_str(v.den as int)
    }
}

impl UnicodeDatumValue {
    /// Renders this numeric value: `{num: 3, den: 1}` gives `"3"`,
    /// `{num: 1, den: 4}` gives `"1/4"`.
    pub fn value_to_str(&self) -> (s: String)
        ensures
            s@ == value_str_spec(*self),
    {
        let mut s = crate::decimal::i64_to_string(self.num);
        if self.den != 1 {
            proof {
                reveal_strlit("/");
            }
            s.append("/");
            let den_str = crate::decimal::i64_to_string(self.den as i64);
            s.append(den_str.as_str());
            proof {
                assert(s@ =~= value_str_spec(*self));
            }
        }
        s
    }
}

/// Keeping a search result means its record carries the selected category.
pub open spec fn category_pred(data: Seq<UnicodeDatum>, cat: Category) -> spec_fn(
    SearchResult,
) -> bool {
    |sr: SearchResult| data[sr.idx as int].cat == cat
}

/// Restricts search results to those whose codepoint record carries the
/// selected category, keeping their order. A result ordinal past the end
/// of the metadata store indicates a corrupted or mismatched generated
/// table and is reported as `OutOfRange`.
pub fn filter_by_category(results: Vec<SearchResult>, data: &[UnicodeDatum], cat: Category) -> (r:
    Result<Vec<SearchResult>, UcdError>)
    ensures
        r is Ok <==> (forall|j: int|
            0 <= j < results@.len() ==> (#[trigger] results@[j]).idx < data@.len()),
        r is Ok ==> r->Ok_0@ == results@.filter(category_pred(data@, cat)),
        r is Err ==> r->Err_0 == UcdError::OutOfRange,
{
    let ghost all = results@;
    let ghost pred = category_pred(data@, cat);
    let mut input = results;
    let mut out: Vec<SearchResult> = Vec::new();
    proof {
        reveal(Seq::filter);
        assert(input@ =~= all.subrange(all.len() - input@.len(), all.len() as int));
        assert(all.subrange(0, 0).len() == 0);
        assert(out@ == all.subrange(0, 0).filter(pred));
    }
    while input.len() > 0
        invariant
            all == results@,
            pred == category_pred(data@, cat),
            input@.len() <= all.len(),
            input@ == all.subrange(all.len() - input@.len(), all.len() as int),
            out@ == all.subrange(0, all.len() - input@.len()).filter(pred),
            forall|j: int|
                0 <= j < all.len() - input@.len() ==> (#[trigger] all[j]).idx < data@.len(),
        decreases input@.len(),
    {
        let ghost done = all.len() - input@.len();
        let sr = input.remove(0);
        proof {
            assert(sr == all[done]);
            assert(input@ =~= all.subrange(all.len() - input@.len(), all.len() as int));
        }
        if sr.idx >= data.len() {
            return Err(UcdError::OutOfRange);
        }
        let keep = data[sr.idx].cat == cat;
        proof {
            broadcast use Seq::lemma_filter_push;

            assert(all.subrange(0, done + 1) =~= all.subrange(0, done).push(sr));
        }
        if keep {
            out.push(sr);
        }
    }
    proof {
        assert(all.subrange(0, all.len() as int) =~= all);
    }
    Ok(out)
}

/// Renders an optional numeric value for display: the value's rendered
/// form when present, `"-"` when absent.
pub fn value_display(v: Option<&UnicodeDatumValue>) -> (s: String)
    ensures
        v is Some ==> s@ == value_str_spec(*v->0),
        v is None ==> s@ == "-"@,
{
    match v {
        Some(val) => val.value_to_str(),
        None => "-".to_owned(),
    }
}

} // verus!
