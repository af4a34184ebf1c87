//! Notice categories and stored notices.
use vstd::prelude::*;
use vstd::utf8::encode_utf8;
use sha2::Digest;
use crate::text::{concat2, concat3, str_eq};
use crate::dates::{Date, DateTime, chrono_parse_date, date_text_of};

verus! {

/// The categories of notices that the bot follows (and that the database accepts).
#[derive(Clone, Copy, Debug, PartialEq, Eq, Structural)]
pub enum Category {
    Training,
    ClassNotice,
    StudentAffairs,
    Tuition,
}

/// The name under which a category is written and stored.
pub open spec fn category_name(c: Category) -> Seq<char> {
    match c {
        Category::Training => "Training"@,
        Category::ClassNotice => "ClassNotice"@,
        Category::StudentAffairs => "StudentAffairs"@,
        Category::Tuition => "Tuition"@,
    }
}

/// The category whose name is exactly `s`, if any.
pub open spec fn category_of_name(s: Seq<char>) -> Option<Category> {
    if s == "Training"@ {
        Some(Category::Training)
    } else if s == "ClassNotice"@ {
        Some(Category::ClassNotice)
    } else if s == "StudentAffairs"@ {
        Some(Category::StudentAffairs)
    } else if s == "Tuition"@ {
        Some(Category::Tuition)
    } else {
        None
    }
}

impl Category {
    /// The category's name as a static string.
    pub fn name(&self) -> (r: &'static str)
        ensures
            r@ == category_name(*self),
    {
        proof {
            reveal_strlit("Training");
            reveal_strlit("ClassNotice");
            reveal_strlit("StudentAffairs");
            reveal_strlit("Tuition");
        }
        match self {
            Category::Training => "Training",
            Category::ClassNotice => "ClassNotice",
            Category::StudentAffairs => "StudentAffairs",
            Category::Tuition => "Tuition",
        }
    }

    /// The category's name, as its textual form is written.
    pub fn to_string(&self) -> (r: String)
        ensures
            r@ == category_name(*self),
    {
        String::from_str(self.name())
    }

    /// The category named `s`, or `None`.
    pub fn from_name(s: &str) -> (r: Option<Category>)
        ensures
            r == category_of_name(s@),
    {
        proof {
            reveal_strlit("Training");
            reveal_strlit("ClassNotice");
            reveal_strlit("StudentAffairs");
            reveal_strlit("Tuition");
        }
        if str_eq(s, "Training") {
            Some(Category::Training)
        } else if str_eq(s, "ClassNotice") {
            Some(Category::ClassNotice)
        } else if str_eq(s, "StudentAffairs") {
            Some(Category::StudentAffairs)
        } else if str_eq(s, "Tuition") {
            Some(Category::Tuition)
        } else {
            None
        }
    }

    /// Parses a category name; an unknown name gives the message
    /// `Invalid category: <s>`.
    pub fn parse(s: &str) -> (r: Result<Category, String>)
        ensures
            match category_of_name(s@) {
                Some(c) => r == Ok::<Category, String>(c),
                None => r is Err && r->Err_0@ == "Invalid category: "@ + s@,
            },
    {
        match Category::from_name(s) {
            Some(c) => Ok(c),
            None => {
                proof { reveal_strlit("Invalid category: "); }
                Err(concat2("Invalid category: ", s))
            }
        }
    }

    /// Converts a stored category string; an unknown string gives the message
    /// `Invalid category string: <value>`.
    pub fn try_from_string(value: String) -> (r: Result<Category, String>)
        ensures
            match category_of_name(value@) {
                Some(c) => r == Ok::<Category, String>(c),
                None => r is Err && r->Err_0@ == "Invalid category string: "@ + value@,
            },
    {
        match Category::from_name(value.as_str()) {
            Some(c) => Ok(c),
            None => {
                proof { reveal_strlit("Invalid category string: "); }
                Err(concat2("Invalid category string: ", value.as_str()))
            }
        }
    }
}

/// A category's name reads back as that category.
pub proof fn lemma_category_name_roundtrip(c: Category)
    ensures
        category_of_name(category_name(c)) == Some(c),
{
    reveal_strlit("Training");
    reveal_strlit("ClassNotice");
    reveal_strlit("StudentAffairs");
    reveal_strlit("Tuition");
    match c {
        Category::Training => {}
        Category::ClassNotice => {
            assert("ClassNotice"@ != "Training"@ ) by {
                assert("ClassNotice"@.len() != "Training"@.len());
            }
        }
        Category::StudentAffairs => {
            assert("StudentAffairs"@.len() != "Training"@.len());
            assert("StudentAffairs"@.len() != "ClassNotice"@.len());
        }
        Category::Tuition => {
            assert("Tuition"@.len() != "Training"@.len());
            assert("Tuition"@.len() != "ClassNotice"@.len());
            assert("Tuition"@.len() != "StudentAffairs"@.len());
        }
    }
}

/// A string accepted as a category is exactly that category's name.
pub proof fn lemma_category_parse_exact(s: Seq<char>)
    ensures
        category_of_name(s) matches Some(c) ==> category_name(c) == s,
{
}

/// What `sha2::Sha256` computes for a message (32 bytes).
pub uninterp spec fn sha256_of(data: Seq<u8>) -> Seq<u8>;

/// SHA-256 digest of `data`, through `sha2::Sha256::digest`. The digest is
/// named, and its length (32 bytes, the output size of SHA-256) is stated.
#[verifier::external_body]
fn sha256(data: &[u8]) -> (r: Vec<u8>)
    ensures
        r@ == sha256_of(data@),
        r@.len() == 32,
{
    sha2::Sha256::digest(data).to_vec()
}

/// Lower-case hexadecimal digit of `n` (0..=15).
pub open spec fn hex_digit(n: int) -> char {
    if n < 10 {
        crate::dates::digit_char(n)
    } else if n == 10 { 'a' }
    else if n == 11 { 'b' }
    else if n == 12 { 'c' }
    else if n == 13 { 'd' }
    else if n == 14 { 'e' }
    else { 'f' }
}

/// Lower-case hexadecimal form of bytes, two digits per byte (what `{:x}`
/// prints for a digest).
pub open spec fn hex_lower(b: Seq<u8>) -> Seq<char>
    decreases b.len(),
{
    if b.len() == 0 {
        seq![]
    } else {
        hex_lower(b.drop_last()) + seq![hex_digit((b.last() / 16) as int), hex_digit((b.last() % 16) as int)]
    }
}

fn hex_digit_str(n: u8) -> (r: &'static str)
    requires
        n < 16,
    ensures
        r@ == seq![hex_digit(n as int)],
{
    proof {
        reveal_strlit("0"); reveal_strlit("1"); reveal_strlit("2"); reveal_strlit("3");
        reveal_strlit("4"); reveal_strlit("5"); reveal_strlit("6"); reveal_strlit("7");
        reveal_strlit("8"); reveal_strlit("9"); reveal_strlit("a"); reveal_strlit("b");
        reveal_strlit("c"); reveal_strlit("d"); reveal_strlit("e"); reveal_strlit("f");
    }
    let r = if n == 0 { "0" } else if n == 1 { "1" } else if n == 2 { "2" } else if n == 3 { "3" }
        else if n == 4 { "4" } else if n == 5 { "5" } else if n == 6 { "6" } else if n == 7 { "7" }
        else if n == 8 { "8" } else if n == 9 { "9" } else if n == 10 { "a" } else if n == 11 { "b" }
        else if n == 12 { "c" } else if n == 13 { "d" } else if n == 14 { "e" } else { "f" };
    assert(r@ =~= seq![hex_digit(n as int)]);
    r
}

/// Lower-case hexadecimal form of `b`.
pub fn to_hex_lower(b: &Vec<u8>) -> (r: String)
    ensures
        r@ == hex_lower(b@),
{
    let mut r = String::new();
    let mut i: usize = 0;
    while i < b.len()
        invariant
            i <= b.len(),
            r@ == hex_lower(b@.take(i as int)),
        decreases b.len() - i,
    {
        let x = b[i];
        r.append(hex_digit_str(x / 16));
        r.append(hex_digit_str(x % 16));
        proof {
            assert(b@.take(i + 1).drop_last() =~= b@.take(i as int));
            assert(b@.take(i + 1).last() == x);
        }
        i = i + 1;
    }
    assert(b@.take(b.len() as int) =~= b@);
    r
}

/// The bytes that identify a notice: the UTF-8 of its date text (empty when
/// there is none) followed by the UTF-8 of its title.
pub open spec fn notice_key_bytes(date: Option<Seq<char>>, title: Seq<char>) -> Seq<u8> {
    encode_utf8(match date { Some(d) => d, None => seq![] }) + encode_utf8(title)
}

/// A notice's external id: the lower-case hex SHA-256 of its key bytes.
pub open spec fn external_id_of(date: Option<Seq<char>>, title: Seq<char>) -> Seq<char> {
    hex_lower(sha256_of(notice_key_bytes(date, title)))
}

/// The publication date read from a notice's date text: `YYYY-MM-DD` first,
/// `DD/MM/YYYY` second.
pub open spec fn published_date_of(date: Option<Seq<char>>) -> Option<(int, int, int)> {
    match date {
        None => None,
        Some(d) => match chrono_parse_date(d, "%Y-%m-%d"@) {
            Some(x) => Some(x),
            None => chrono_parse_date(d, "%d/%m/%Y"@),
        },
    }
}

/// The character sequence of an optional string.
pub open spec fn opt_view(o: Option<String>) -> Option<Seq<char>> {
    match o {
        Some(s) => Some(s@),
        None => None,
    }
}

/// The date of an optional date.
pub open spec fn opt_date_view(o: Option<Date>) -> Option<(int, int, int)> {
    match o {
        Some(d) => Some(d@),
        None => None,
    }
}

/// A notice sent (or to be sent) to the chat, as it is stored.
#[derive(Clone, Debug)]
pub struct NoticeSent {
    /// Database row id (0 until stored).
    pub id: i32,
    pub main_category: Category,
    /// Identity of the notice within its category.
    pub external_id: String,
    pub published_date: Option<Date>,
    /// At least 3 characters once trimmed, for the database to accept it.
    pub title: String,
    /// Absent, or non-blank, for the database to accept it.
    pub body: Option<String>,
    pub sent_at: DateTime,
    /// 1 once sent, else 0.
    pub sent_ok: i32,
}

/// `n` is the notice built from a date text, title, content and category
/// (its sending time aside).
pub open spec fn built_from(
    n: NoticeSent,
    date: Option<Seq<char>>,
    title: Seq<char>,
    content: Option<Seq<char>>,
    category: Category,
) -> bool {
    &&& n.id == 0
    &&& n.main_category == category
    &&& n.external_id@ == external_id_of(date, title)
    &&& opt_date_view(n.published_date) == published_date_of(date)
    &&& n.title@ == title
    &&& opt_view(n.body) == content
    &&& n.sent_ok == 0
}

/// Copies the bytes of `a` and then those of `b` into one vector.
fn concat_bytes(a: &[u8], b: &[u8]) -> (r: Vec<u8>)
    ensures
        r@ == a@ + b@,
{
    let mut r: Vec<u8> = Vec::new();
    let mut i: usize = 0;
    while i < a.len()
        invariant
            i <= a@.len(),
            r@ == a@.take(i as int),
        decreases a@.len() - i,
    {
        r.push(a[i]);
        assert(a@.take(i + 1) =~= a@.take(i as int).push(a@[i as int]));
        i = i + 1;
    }
    let mut j: usize = 0;
    while j < b.len()
        invariant
            j <= b@.len(),
            i == a@.len(),
            r@ == a@.take(i as int) + b@.take(j as int),
        decreases b@.len() - j,
    {
        r.push(b[j]);
        assert(b@.take(j + 1) =~= b@.take(j as int).push(b@[j as int]));
        j = j + 1;
    }
    assert(a@.take(a@.len() as int) =~= a@);
    assert(b@.take(b@.len() as int) =~= b@);
    r
}

/// The publication date read from a date text (see [`published_date_of`]).
pub fn parse_published_date(date: &Option<String>) -> (r: Option<Date>)
    ensures
        opt_date_view(r) == published_date_of(opt_view(*date)),
{
    match date {
        None => None,
        Some(d) => match Date::parse_from_str(d.as_str(), "%Y-%m-%d") {
            Some(x) => Some(x),
            None => Date::parse_from_str(d.as_str(), "%d/%m/%Y"),
        },
    }
}

proof fn lemma_hex_lower_len(b: Seq<u8>)
    ensures
        hex_lower(b).len() == 2 * b.len(),
    decreases b.len(),
{
    if b.len() > 0 {
        lemma_hex_lower_len(b.drop_last());
    }
}

/// The external id of a notice with this date text and title (64 hex digits).
pub fn external_id_for(date: &Option<String>, title: &String) -> (r: String)
    ensures
        r@ == external_id_of(opt_view(*date), title@),
        r@.len() == 64,
{
    let empty = String::new();
    let d: &String = match date {
        Some(d) => d,
        None => &empty,
    };
    let bytes = concat_bytes(d.as_str().as_bytes(), title.as_str().as_bytes());
    proof {
        assert(d@ == (match opt_view(*date) { Some(x) => x, None => Seq::<char>::empty() }));
    }
    let digest = sha256(bytes.as_slice());
    proof { lemma_hex_lower_len(digest@); }
    to_hex_lower(&digest)
}

impl NoticeSent {
    /// Builds a notice sent at `sent_at`.
    pub fn new_at(
        date: Option<String>,
        title: String,
        content: Option<String>,
        category: Category,
        sent_at: DateTime,
    ) -> (r: NoticeSent)
        ensures
            built_from(r, opt_view(date), title@, opt_view(content), category),
            r.external_id@.len() == 64,
            r.sent_at == sent_at,
    {
        let hash = external_id_for(&date, &title);
        let published_date = parse_published_date(&date);
        NoticeSent {
            id: 0,
            main_category: category,
            external_id: hash,
            published_date,
            title,
            body: content,
            sent_at,
            sent_ok: 0,
        }
    }

    /// Builds a notice from its date text, title, content and category,
    /// stamped with the current time.
    pub fn new(date: Option<String>, title: String, content: Option<String>, category: Category) -> (r: NoticeSent)
        ensures
            built_from(r, opt_view(date), title@, opt_view(content), category),
            r.external_id@.len() == 64,
    {
        let sent_at = DateTime::now_utc();
        NoticeSent::new_at(date, title, content, category, sent_at)
    }

    /// The notice's date as text, `N/A` when it has none.
    pub fn date_or_na(&self) -> (r: String)
        ensures
            r@ == date_or_na_text(self.published_date),
    {
        match &self.published_date {
            Some(d) => d.to_string(),
            None => {
                proof { reveal_strlit("N/A"); }
                String::from_str("N/A")
            }
        }
    }

    /// How a notice is displayed: `[date] title` and the body on the next line.
    pub fn to_display_string(&self) -> (r: String)
        ensures
            r@ == seq!['['] + date_or_na_text(self.published_date) + "] "@ + self.title@ + seq!['\n']
                + (match self.body { Some(b) => b@, None => Seq::<char>::empty() }),
    {
        let date = self.date_or_na();
        let mut r = concat3("[", date.as_str(), "] ");
        r.append(self.title.as_str());
        r.append("\n");
        match &self.body {
            Some(b) => r.append(b.as_str()),
            None => {}
        }
        proof {
            reveal_strlit("[");
            reveal_strlit("\n");
        }
        r
    }

    /// The line that identifies a notice: `[date] title` and its external id
    /// on the next line.
    pub fn fmt_id(&self) -> (r: String)
        ensures
            r@ == seq!['['] + date_or_na_text(self.published_date) + "] "@ + self.title@ + seq!['\n']
                + self.external_id@,
    {
        let date = self.date_or_na();
        let mut r = concat3("[", date.as_str(), "] ");
        r.append(self.title.as_str());
        r.append("\n");
        r.append(self.external_id.as_str());
        proof {
            reveal_strlit("[");
            reveal_strlit("\n");
        }
        r
    }
}

/// A notice's date as `YYYY-MM-DD`, or `N/A`.
pub open spec fn date_or_na_text(d: Option<Date>) -> Seq<char> {
    match d {
        Some(x) => date_text_of(x@.0, x@.1, x@.2),
        None => "N/A"@,
    }
}

impl std::str::FromStr for Category {
    type Err = String;

    /// Parses a category name (see [`Category::parse`]).
    fn from_str(s: &str) -> (r: Result<Self, Self::Err>)
        ensures
            match category_of_name(s@) {
                Some(c) => r == Ok::<Category, String>(c),
                None => r is Err && r->Err_0@ == "Invalid category: "@ + s@,
            },
    {
        Category::parse(s)
    }
}

} // verus!
