//! Content units (one country each) and the pages fetched for them.
use crate::text::{
    is_path_separator, is_white_space, is_whitespace, join, lemma_join_push, lower_of, push_char,
    to_lower, words,
};
use crate::error::EngineError;
use vstd::prelude::*;

verus! {

/// A content unit: its display name and the address of its first page.
pub struct Country {
    pub name: String,
    pub url: String,
}

/// Where the last path segment of `s` starts: just after its last `/`.
pub open spec fn segment_start(s: Seq<char>) -> int
    decreases s.len(),
{
    if s.len() == 0 {
        0
    } else if s.last() == '/' {
        s.len() as int
    } else {
        segment_start(s.drop_last())
    }
}

/// The text after the last `/` of `s` (all of `s` where it has none).
pub open spec fn last_segment(s: Seq<char>) -> Seq<char> {
    s.skip(segment_start(s))
}

pub proof fn lemma_segment_start_bounds(s: Seq<char>)
    ensures
        0 <= segment_start(s) <= s.len(),
        forall|i: int| segment_start(s) <= i < s.len() ==> s[i] != '/',
    decreases s.len(),
{
    if s.len() > 0 {
        let p = s.drop_last();
        lemma_segment_start_bounds(p);
        assert forall|i: int| segment_start(s) <= i < s.len() implies s[i] != '/' by {
            if s.last() != '/' && i < s.len() - 1 {
                assert(s[i] == p[i]);
            }
        }
    }
}

/// `s` names a directory that stays inside its parent on every platform:
/// it is neither `.` nor `..` and holds no `/` or backslash.
pub open spec fn is_safe_slug(s: Seq<char>) -> bool {
    s != "."@ && s != ".."@ && forall|i: int| 0 <= i < s.len() ==> s[i] != '/' && s[i] != '\\'
}

/// `s` is refused as a directory name on every platform: it is `.` or `..`,
/// or holds a `/`.
pub open spec fn is_unsafe_slug(s: Seq<char>) -> bool {
    s == "."@ || s == ".."@ || exists|i: int| 0 <= i < s.len() && s[i] == '/'
}

/// Checks that `slug` can name a directory inside the archive: not `.` or
/// `..`, and without a path separator of this platform.
pub fn validate_slug(slug: &str) -> (r: Result<(), EngineError>)
    ensures
        is_unsafe_slug(slug@) ==> r is Err,
        is_safe_slug(slug@) ==> r is Ok,
        r matches Err(EngineError::BadPath(p)) ==> p@ == slug@,
        r matches Err(e) ==> e is BadPath,
{
    let n = slug.unicode_len();
    let dots = n >= 1 && n <= 2 && slug.get_char(0) == '.' && slug.get_char(n - 1) == '.';
    proof {
        if slug@ == "."@ || slug@ == ".."@ {
            reveal_strlit(".");
            reveal_strlit("..");
        }
        if dots {
            reveal_strlit(".");
            reveal_strlit("..");
            if n == 1 {
                assert(slug@ =~= "."@);
            } else {
                assert(slug@ =~= ".."@);
            }
        }
    }
    if dots {
        return Err(EngineError::BadPath(String::from_str(slug)));
    }
    let mut i: usize = 0;
    while i < n
        invariant
            n == slug@.len(),
            i <= n,
            forall|k: int| 0 <= k < i ==> slug@[k] != '/',
        decreases n - i,
    {
        if is_path_separator(slug.get_char(i)) {
            return Err(EngineError::BadPath(String::from_str(slug)));
        }
        i = i + 1;
    }
    Ok(())
}

impl Country {
    /// The directory name of the unit: the last path segment of its address,
    /// which must pass `validate_slug`.
    pub fn dir_name(&self) -> (r: Result<String, EngineError>)
        ensures
            is_unsafe_slug(last_segment(self.url@)) ==> r is Err,
            is_safe_slug(last_segment(self.url@)) ==> r is Ok,
            r matches Ok(d) ==> d@ == last_segment(self.url@),
            r matches Err(EngineError::BadPath(p)) ==> p@ == last_segment(self.url@),
            r matches Err(e) ==> e is BadPath,
    {
        let url = self.url.as_str();
        let n = url.unicode_len();
        let mut start: usize = 0;
        let mut i: usize = 0;
        while i < n
            invariant
                n == url@.len(),
                i <= n,
                start as int == segment_start(url@.take(i as int)),
            decreases n - i,
        {
            assert(url@.take(i + 1).drop_last() =~= url@.take(i as int));
            if url.get_char(i) == '/' {
                start = i + 1;
            }
            i = i + 1;
        }
        assert(url@.take(n as int) =~= url@);
        proof {
            lemma_segment_start_bounds(url@);
        }
        let seg = url.substring_char(start, n);
        match validate_slug(seg) {
            Ok(()) => Ok(String::from_str(seg)),
            Err(e) => Err(e),
        }
    }
}

/// A page of a unit: its heading and its text.
pub struct TitleAndContent {
    pub title: String,
    pub content: String,
}

/// `.` and `/` become `_` in a file name; other characters stay.
pub open spec fn file_char(c: char) -> char {
    if c == '.' || c == '/' {
        '_'
    } else {
        c
    }
}

pub open spec fn file_chars(s: Seq<char>) -> Seq<char> {
    s.map_values(|c: char| file_char(c))
}

/// The file name made of an already lower-cased title: its words joined by
/// `-`, with `.` and `/` replaced by `_`.
pub open spec fn file_name_of(lowered: Seq<char>) -> Seq<char> {
    file_chars(join(words(lowered), "-"@))
}

/// Appending a character to the last part appends it to the joined text.
pub proof fn lemma_join_extend_last(parts: Seq<Seq<char>>, sep: Seq<char>, c: char)
    requires
        parts.len() > 0,
    ensures
        join(parts.update(parts.len() - 1, parts.last().push(c)), sep) == join(parts, sep).push(c),
{
    let u = parts.update(parts.len() - 1, parts.last().push(c));
    if parts.len() > 1 {
        assert(u.drop_last() =~= parts.drop_last());
        assert(join(parts.drop_last(), sep) + sep + parts.last().push(c) =~= (join(
            parts.drop_last(),
            sep,
        ) + sep + parts.last()).push(c));
    }
}

/// No character of `s` is white space.
pub open spec fn no_white_space(s: Seq<char>) -> bool {
    forall|i: int| 0 <= i < s.len() ==> !is_white_space(#[trigger] s[i])
}

/// Every character of `s` is white space.
pub open spec fn all_white_space(s: Seq<char>) -> bool {
    forall|i: int| 0 <= i < s.len() ==> is_white_space(#[trigger] s[i])
}

/// Every word is a non-empty run without white space, and there is a word
/// exactly where some character is not white space.
pub proof fn lemma_words_shape(s: Seq<char>)
    ensures
        forall|k: int| 0 <= k < words(s).len() ==> (#[trigger] words(s)[k]).len() > 0 && no_white_space(words(s)[k]),
        words(s).len() == 0 <==> all_white_space(s),
    decreases s.len(),
{
    if s.len() > 0 {
        let p = s.drop_last();
        let c = s.last();
        lemma_words_shape(p);
        let w = words(p);
        if is_white_space(c) {
            if all_white_space(p) {
                assert forall|i: int| 0 <= i < s.len() implies is_white_space(#[trigger] s[i]) by {
                    if i < p.len() {
                        assert(s[i] == p[i]);
                    }
                }
            }
            if all_white_space(s) {
                assert forall|i: int| 0 <= i < p.len() implies is_white_space(#[trigger] p[i]) by {
                    assert(s[i] == p[i]);
                }
            }
        } else {
            assert(!is_white_space(s[s.len() - 1]));
            if s.len() >= 2 && !is_white_space(s[s.len() - 2]) {
                assert(!is_white_space(p[p.len() - 1]));
                assert(!all_white_space(p));
                let u = w.update(w.len() - 1, w.last().push(c));
                assert forall|k: int| 0 <= k < u.len() implies (#[trigger] u[k]).len() > 0 && no_white_space(u[k]) by {
                    if k == w.len() - 1 {
                        assert(no_white_space(w.last()));
                        assert forall|i: int| 0 <= i < u[k].len() implies !is_white_space(#[trigger] u[k][i]) by {
                            if i < w.last().len() {
                                assert(u[k][i] == w.last()[i]);
                            }
                        }
                    }
                }
            } else {
                let u = w.push(seq![c]);
                assert forall|k: int| 0 <= k < u.len() implies (#[trigger] u[k]).len() > 0 && no_white_space(u[k]) by {
                    if k < w.len() {
                        assert(u[k] == w[k]);
                    } else {
                        assert(u[k] == seq![c]);
                    }
                }
            }
        }
    }
}

/// Parts that are not empty join into a text that is not empty, and parts
/// and separator without white space join into a text without it.
pub proof fn lemma_join_shape(parts: Seq<Seq<char>>, sep: Seq<char>)
    requires
        no_white_space(sep),
        forall|k: int| 0 <= k < parts.len() ==> (#[trigger] parts[k]).len() > 0 && no_white_space(parts[k]),
    ensures
        parts.len() > 0 ==> join(parts, sep).len() > 0,
        no_white_space(join(parts, sep)),
    decreases parts.len(),
{
    if parts.len() > 1 {
        let q = parts.drop_last();
        assert forall|k: int| 0 <= k < q.len() implies (#[trigger] q[k]).len() > 0 && no_white_space(q[k]) by {
            assert(q[k] == parts[k]);
        }
        lemma_join_shape(q, sep);
        let a = join(q, sep);
        let l = parts.last();
        assert(parts[parts.len() - 1] == l);
        let j = a + sep + l;
        assert forall|i: int| 0 <= i < j.len() implies !is_white_space(#[trigger] j[i]) by {
            if i < a.len() {
                assert(j[i] == a[i]);
            } else if i < a.len() + sep.len() {
                assert(j[i] == sep[i - a.len()]);
            } else {
                assert(j[i] == l[i - a.len() - sep.len()]);
            }
        }
    } else if parts.len() == 1 {
        assert(parts[0].len() > 0 && no_white_space(parts[0]));
    }
}

/// A page's file name is empty exactly when its lower-cased title has no
/// character but white space.
pub proof fn lemma_file_name_empty(lowered: Seq<char>)
    ensures
        file_name_of(lowered).len() == 0 <==> all_white_space(lowered),
{
    reveal_strlit("-");
    lemma_words_shape(lowered);
    assert(no_white_space("-"@));
    lemma_join_shape(words(lowered), "-"@);
}

/// A text without white space, `.` or `/` is its own file name.
pub proof fn lemma_file_name_fixed(s: Seq<char>)
    requires
        no_white_space(s),
        forall|i: int| 0 <= i < s.len() ==> s[i] != '.' && s[i] != '/',
    ensures
        file_name_of(s) == s,
{
    lemma_words_single(s);
    reveal_strlit("-");
    if s.len() > 0 {
        assert(join(seq![s], "-"@) == s);
    }
    assert(file_chars(s) =~= s);
}

/// A non-empty text without white space is one word.
pub proof fn lemma_words_single(s: Seq<char>)
    requires
        no_white_space(s),
    ensures
        s.len() == 0 ==> words(s) == Seq::<Seq<char>>::empty(),
        s.len() > 0 ==> words(s) == seq![s],
    decreases s.len(),
{
    if s.len() > 0 {
        let p = s.drop_last();
        assert forall|i: int| 0 <= i < p.len() implies !is_white_space(#[trigger] p[i]) by {
            assert(p[i] == s[i]);
        }
        lemma_words_single(p);
        assert(!is_white_space(s[s.len() - 1]));
        if p.len() > 0 {
            assert(!is_white_space(s[s.len() - 2]));
            assert(p.push(s.last()) =~= s);
            assert(seq![p].update(0, s) =~= seq![s]);
        } else {
            assert(seq![s.last()] =~= s);
        }
    }
}

/// Normalising a file name again changes nothing.
pub proof fn lemma_file_name_idempotent(lowered: Seq<char>)
    ensures
        file_name_of(file_name_of(lowered)) == file_name_of(lowered),
{
    reveal_strlit("-");
    lemma_words_shape(lowered);
    assert(no_white_space("-"@));
    lemma_join_shape(words(lowered), "-"@);
    let j = join(words(lowered), "-"@);
    let f = file_chars(j);
    assert forall|i: int| 0 <= i < f.len() implies !is_white_space(#[trigger] f[i]) by {
        assert(f[i] == file_char(j[i]));
        assert(!is_white_space(j[i]));
    }
    lemma_file_name_fixed(f);
}

/// The file name for a page whose title, lower-cased, is `lowered`: the
/// words of `lowered` joined by `-`, each `.` and `/` replaced by `_`.
pub fn file_name_from_lowered(lowered: &str) -> (r: String)
    ensures
        r@ == file_name_of(lowered@),
{
    let ghost s = lowered@;
    let ghost dash: Seq<char> = "-"@;
    proof {
        reveal_strlit("-");
    }
    let n = lowered.unicode_len();
    let mut out = String::new();
    let mut started = false;
    let mut in_word = false;
    let mut i: usize = 0;
    assert(s.take(0) =~= Seq::<char>::empty());
    assert(file_chars(Seq::<char>::empty()) =~= Seq::<char>::empty());
    while i < n
        invariant
            n == s.len(),
            s == lowered@,
            dash == seq!['-'],
            i <= n,
            out@ == file_chars(join(words(s.take(i as int)), dash)),
            started == (words(s.take(i as int)).len() > 0),
            in_word == (i > 0 && !is_white_space(s[i - 1])),
            in_word ==> started,
        decreases n - i,
    {
        let c = lowered.get_char(i);
        let ghost t = s.take(i + 1);
        let ghost w = words(s.take(i as int));
        assert(t.drop_last() =~= s.take(i as int));
        assert(t.last() == c);
        if is_whitespace(c) {
            in_word = false;
        } else {
            let ghost j0 = join(w, dash);
            if in_word {
                assert(t[t.len() - 2] == s[i - 1]);
                proof {
                    lemma_join_extend_last(w, dash, c);
                }
            } else {
                proof {
                    lemma_join_push(w, dash, seq![c]);
                }
                if started {
                    push_char(&mut out, '-');
                }
            }
            let fc = if c == '.' || c == '/' {
                '_'
            } else {
                c
            };
            push_char(&mut out, fc);
            proof {
                if in_word {
                    assert(file_chars(j0.push(c)) =~= file_chars(j0).push(fc));
                } else if started {
                    assert(file_chars(j0 + dash + seq![c]) =~= file_chars(j0).push('-').push(fc));
                } else {
                    assert(file_chars(seq![c]) =~= seq![fc]);
                }
            }
            in_word = true;
            started = true;
        }
        i = i + 1;
    }
    assert(s.take(n as int) =~= s);
    out
}

impl TitleAndContent {
    /// The name of the file that holds this page: the lower-cased title's
    /// words joined by `-`, each `.` and `/` replaced by `_`.
    pub fn file_name(&self) -> (r: String)
        ensures
            r@ == file_name_of(lower_of(self.title@)),
    {
        let lowered = to_lower(self.title.as_str());
        file_name_from_lowered(lowered.as_str())
    }
}

} // verus!
