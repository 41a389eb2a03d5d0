//! The parts of an eBook, decided from each document's file stem.
use crate::document::{DocError, Document};
use crate::path::{extension, extension_str, file_stem, stem};
use crate::text::str_eq;
use vstd::prelude::*;
use vstd::string::*;

verus! {

/// How one document enters the book.
pub enum PartKind {
    /// The cover image, of the given MIME type.
    Cover { mime: String },
    /// The title page, stored under `zip_path`.
    TitlePage { zip_path: String },
    /// Chapter `number`, stored under `zip_path` with the given title.
    Chapter { number: usize, zip_path: String, title: String },
}

/// One part of the book and the file it is made from.
pub struct BookPart {
    pub source_path: String,
    pub kind: PartKind,
}

pub open spec fn is_cover_stem(s: Seq<char>) -> bool {
    s == "cover"@ || s == "_cover"@
}

pub open spec fn is_title_stem(s: Seq<char>) -> bool {
    s == "title"@ || s == "_title"@
}

/// A document with this stem is a chapter.
pub open spec fn is_chapter_stem(s: Option<Seq<char>>) -> bool {
    s matches Some(t) && !is_cover_stem(t) && !is_title_stem(t)
}

/// How many of the first `i` stems are chapters'.
pub open spec fn chapters_before(stems: Seq<Option<Seq<char>>>, i: int) -> nat
    decreases i,
{
    if i <= 0 {
        0
    } else {
        chapters_before(stems, i - 1) + if is_chapter_stem(stems[i - 1]) {
            1nat
        } else {
            0nat
        }
    }
}

/// The stems of the documents' source paths.
pub open spec fn doc_stems(docs: Seq<Document>) -> Seq<Option<Seq<char>>> {
    docs.map_values(|d: Document| file_stem(d.source_path@))
}

/// The decimal digits of `n`.
pub open spec fn decimal(n: nat) -> Seq<char>
    decreases n,
{
    let digit = seq!['0', '1', '2', '3', '4', '5', '6', '7', '8', '9'][(n % 10) as int];
    if n < 10 {
        seq![digit]
    } else {
        decimal(n / 10).push(digit)
    }
}

/// The MIME type of a cover image: `image/` and the file's extension, or
/// `image/png` where it has none.
pub open spec fn cover_mime(path: Seq<char>) -> Seq<char> {
    match extension(path) {
        Some(e) => "image/"@ + e,
        None => "image/png"@,
    }
}

/// `part` is what the document at position `i` becomes.
pub open spec fn part_for(part: BookPart, docs: Seq<Document>, i: int) -> bool {
    let stems = doc_stems(docs);
    let s = stems[i]->0;
    &&& part.source_path@ == docs[i].source_path@
    &&& if is_cover_stem(s) {
        part.kind matches PartKind::Cover { mime } && mime@ == cover_mime(docs[i].source_path@)
    } else if is_title_stem(s) {
        part.kind matches PartKind::TitlePage { zip_path } && zip_path@ == s + ".xhtml"@
    } else {
        part.kind matches PartKind::Chapter { number, zip_path, title } && number
            == chapters_before(stems, i) + 1 && zip_path@ == s + ".xhtml"@ && title@ == "Chapter "@
            + decimal(number as nat)
    }
}

fn digit_str(d: usize) -> (r: &'static str)
    requires
        d < 10,
    ensures
        r@ == seq![seq!['0', '1', '2', '3', '4', '5', '6', '7', '8', '9'][d as int]],
{
    proof {
        reveal_strlit("0");
        reveal_strlit("1");
        reveal_strlit("2");
        reveal_strlit("3");
        reveal_strlit("4");
        reveal_strlit("5");
        reveal_strlit("6");
        reveal_strlit("7");
        reveal_strlit("8");
        reveal_strlit("9");
    }
    let r = if d == 0 {
        "0"
    } else if d == 1 {
        "1"
    } else if d == 2 {
        "2"
    } else if d == 3 {
        "3"
    } else if d == 4 {
        "4"
    } else if d == 5 {
        "5"
    } else if d == 6 {
        "6"
    } else if d == 7 {
        "7"
    } else if d == 8 {
        "8"
    } else {
        "9"
    };
    assert(r@ =~= seq![seq!['0', '1', '2', '3', '4', '5', '6', '7', '8', '9'][d as int]]);
    r
}

/// The decimal digits of `n`.
pub fn decimal_string(n: usize) -> (r: String)
    ensures
        r@ == decimal(n as nat),
    decreases n,
{
    let d = digit_str(n % 10);
    if n < 10 {
        String::from_str(d)
    } else {
        let mut s = decimal_string(n / 10);
        s.append(d);
        s
    }
}

/// The MIME type of a cover image at `path`.
pub fn cover_mime_type(path: &str) -> (r: String)
    ensures
        r@ == cover_mime(path@),
{
    match extension_str(path) {
        Some(e) => {
            let mut m = String::from_str("image/");
            m.append(e.as_str());
            m
        },
        None => String::from_str("image/png"),
    }
}

/// The parts of the book, one per document in the given order: a document whose
/// stem is `cover` or `_cover` gives the cover, one whose stem is `title` or
/// `_title` the title page, and every other one the next chapter, numbered from 1.
/// A document whose path has no file name is an error.
pub fn book_plan(docs: &Vec<Document>) -> (r: Result<Vec<BookPart>, DocError>)
    ensures
        match r {
            Ok(parts) => parts.len() == docs.len() && (forall|i: int|
                0 <= i < docs.len() ==> #[trigger] doc_stems(docs@)[i] is Some) && (forall|i: int|
                0 <= i < docs.len() ==> part_for(#[trigger] parts@[i], docs@, i)),
            Err(e) => exists|i: int|
                0 <= i < docs.len() && doc_stems(docs@)[i] is None && (e matches DocError::Path {
                    path,
                } && path@ == docs@[i].source_path@),
        },
{
    let ghost stems = doc_stems(docs@);
    let mut parts: Vec<BookPart> = Vec::new();
    let mut chapters: usize = 0;
    let mut i: usize = 0;
    while i < docs.len()
        invariant
            stems == doc_stems(docs@),
            i <= docs.len(),
            parts.len() == i,
            chapters == chapters_before(stems, i as int),
            chapters <= i,
            forall|j: int| 0 <= j < i ==> #[trigger] stems[j] is Some,
            forall|j: int| 0 <= j < i ==> part_for(#[trigger] parts@[j], docs@, j),
        decreases docs.len() - i,
    {
        let doc = &docs[i];
        assert(stems[i as int] == file_stem(docs@[i as int].source_path@));
        let s = match doc.file_stem() {
            Ok(s) => s,
            Err(e) => {
                assert(stems[i as int] is None);
                return Err(e);
            },
        };
        proof {
            reveal_strlit("cover");
            reveal_strlit("_cover");
            reveal_strlit("title");
            reveal_strlit("_title");
        }
        let cover = str_eq(s.as_str(), "cover") || str_eq(s.as_str(), "_cover");
        let title = str_eq(s.as_str(), "title") || str_eq(s.as_str(), "_title");
        let kind = if cover {
            PartKind::Cover { mime: cover_mime_type(doc.source_path.as_str()) }
        } else {
            let mut zip_path = s;
            zip_path.append(".xhtml");
            if title {
                PartKind::TitlePage { zip_path }
            } else {
                let number = chapters + 1;
                let mut t = String::from_str("Chapter ");
                t.append(decimal_string(number).as_str());
                chapters = chapters + 1;
                PartKind::Chapter { number, zip_path, title: t }
            }
        };
        let ghost before = parts@;
        parts.push(BookPart { source_path: doc.source_path.clone(), kind });
        assert(part_for(parts@[i as int], docs@, i as int));
        assert forall|j: int| 0 <= j < i + 1 implies part_for(#[trigger] parts@[j], docs@, j) by {
            if j < i {
                assert(parts@[j] == before[j]);
            }
        }
        i = i + 1;
    }
    Ok(parts)
}

/// Chapter counts up to position `i` of `s` are kept when a stem that is no
/// chapter's is inserted at position `k`.
pub proof fn lemma_insert_keeps_count(s: Seq<Option<Seq<char>>>, k: int, x: Option<Seq<char>>, i: int)
    requires
        0 <= k <= s.len(),
        0 <= i <= s.len(),
        !is_chapter_stem(x),
    ensures
        chapters_before(s.insert(k, x), if i <= k { i } else { i + 1 }) == chapters_before(s, i),
    decreases i,
{
    let t = s.insert(k, x);
    if i == 0 {
    } else if i <= k {
        lemma_insert_keeps_count(s, k, x, i - 1);
        assert(t[i - 1] == s[i - 1]);
    } else if i == k + 1 {
        lemma_insert_keeps_count(s, k, x, k);
        assert(t[k] == x);
        assert(t[k + 1] == s[k]);
        assert(chapters_before(t, k + 1) == chapters_before(t, k));
    } else {
        lemma_insert_keeps_count(s, k, x, i - 1);
        assert(t[i] == s[i - 1]);
    }
}

/// Adding a cover or a title page anywhere among the documents leaves every
/// chapter its number: documents in the order found, with the stem `x` inserted
/// at position `k`, number each chapter as before.
pub proof fn lemma_cover_and_title_take_no_number(
    stems: Seq<Option<Seq<char>>>,
    k: int,
    x: Seq<char>,
)
    requires
        0 <= k <= stems.len(),
        is_cover_stem(x) || is_title_stem(x),
    ensures
        forall|i: int|
            0 <= i < stems.len() ==> #[trigger] chapters_before(stems, i) == chapters_before(
                stems.insert(k, Some(x)),
                if i < k { i } else { i + 1 },
            ),
{
    assert forall|i: int| 0 <= i < stems.len() implies #[trigger] chapters_before(stems, i)
        == chapters_before(stems.insert(k, Some(x)), if i < k { i } else { i + 1 }) by {
        lemma_insert_keeps_count(stems, k, Some(x), i);
        if i == k {
            lemma_insert_keeps_count(stems, k, Some(x), i);
            let t = stems.insert(k, Some(x));
            assert(t[k] == Some(x));
            assert(chapters_before(t, k + 1) == chapters_before(t, k));
        }
    }
}

} // verus!
