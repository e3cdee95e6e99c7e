use vstd::prelude::*;

verus! {

broadcast use vstd::string::group_string_axioms;

/// A Japanese sentence and its English translation.
#[derive(Clone, Debug)]
pub struct Sentance {
    pub en: String,
    pub jp: String,
}

/// The text of a sentence pair.
pub struct SentanceView {
    pub en: Seq<char>,
    pub jp: Seq<char>,
}

impl View for Sentance {
    type V = SentanceView;

    open spec fn view(&self) -> SentanceView {
        SentanceView { en: self.en@, jp: self.jp@ }
    }
}

/// The texts of a sequence of sentence pairs.
pub open spec fn views(s: Seq<Sentance>) -> Seq<SentanceView> {
    s.map_values(|x: Sentance| x@)
}

impl Sentance {
    /// A copy with the same texts.
    pub fn duplicate(&self) -> (r: Sentance)
        ensures
            r@ == self@,
    {
        Sentance { en: self.en.clone(), jp: self.jp.clone() }
    }
}

/// Why a corpus could not be loaded.
#[derive(Clone, Copy, Debug, PartialEq, Eq, Structural)]
pub enum LoadError {
    /// The corpus could not be read.
    DataUnavailable,
    /// The line with this index (from 0) has fewer than four fields.
    MalformedRecord(usize),
}

/// `s` cut at every `sep`; `sep` itself is dropped. Always at least one part.
pub open spec fn split(s: Seq<char>, sep: char) -> Seq<Seq<char>>
    decreases s.len(),
{
    if s.len() == 0 {
        seq![Seq::<char>::empty()]
    } else {
        let parts = split(s.drop_last(), sep);
        if s.last() == sep {
            parts.push(Seq::<char>::empty())
        } else {
            parts.update(parts.len() - 1, parts.last().push(s.last()))
        }
    }
}

/// `l` without one trailing carriage return.
pub open spec fn strip_cr(l: Seq<char>) -> Seq<char> {
    if l.len() > 0 && l.last() == '\r' {
        l.drop_last()
    } else {
        l
    }
}

/// The lines of `s`: cut at `'\n'`, a line ended by `"\r\n"` without its
/// `'\r'`, and with no empty line after a final `'\n'`.
pub open spec fn lines(s: Seq<char>) -> Seq<Seq<char>> {
    let parts = split(s, '\n');
    let ended = parts.drop_last().map_values(|l: Seq<char>| strip_cr(l));
    if parts.last().len() == 0 {
        ended
    } else {
        ended.push(parts.last())
    }
}

/// The tab-separated fields of a line.
pub open spec fn fields(line: Seq<char>) -> Seq<Seq<char>> {
    split(line, '\t')
}

/// Whether a line has the four fields a record needs.
pub open spec fn well_formed(line: Seq<char>) -> bool {
    fields(line).len() >= 4
}

/// The sentence pair a well-formed line holds: Japanese in field 1, English in
/// field 3.
pub open spec fn record(line: Seq<char>) -> SentanceView {
    SentanceView { en: fields(line)[3], jp: fields(line)[1] }
}

proof fn lemma_split_len(s: Seq<char>, sep: char)
    ensures
        split(s, sep).len() >= 1,
    decreases s.len(),
{
    if s.len() > 0 {
        lemma_split_len(s.drop_last(), sep);
    }
}

/// The parts of `cs` between the separators `sep`.
pub fn split_chars(cs: &Vec<char>, sep: char) -> (r: Vec<Vec<char>>)
    ensures
        r@.map_values(|v: Vec<char>| v@) == split(cs@, sep),
{
    let mut done: Vec<Vec<char>> = Vec::new();
    let mut cur: Vec<char> = Vec::new();
    for i in 0..cs.len()
        invariant
            done@.map_values(|v: Vec<char>| v@).push(cur@) == split(cs@.take(i as int), sep),
    {
        proof {
            lemma_split_len(cs@.take(i as int), sep);
            assert(cs@.take(i + 1).drop_last() == cs@.take(i as int));
        }
        let c = cs[i];
        if c == sep {
            let part = cur;
            done.push(part);
            cur = Vec::new();
            assert(done@.map_values(|v: Vec<char>| v@) =~= split(cs@.take(i as int), sep));
        } else {
            cur.push(c);
            assert(done@.map_values(|v: Vec<char>| v@).push(cur@) =~= split(
                cs@.take(i + 1),
                sep,
            ));
        }
    }
    assert(cs@.take(cs.len() as int) == cs@);
    done.push(cur);
    done
}

/// The characters of `s`, in order.
pub fn chars_of(s: &str) -> (r: Vec<char>)
    ensures
        r@ == s@,
{
    let mut v: Vec<char> = Vec::new();
    for c in it: s.chars()
        invariant
            it.seq() == s@,
            v@ == s@.take(it.index()),
    {
        v.push(c);
    }
    assert(v@ =~= s@);
    v
}

/// Relies on std's `FromIterator<&char>` for `String`: the string of exactly
/// these characters.
#[verifier::external_body]
fn string_of(cs: &Vec<char>) -> (r: String)
    ensures
        r@ == cs@,
{
    cs.iter().collect()
}

/// A copy of `l`, without one trailing carriage return when `ended`.
fn strip_cr_chars(l: &Vec<char>, ended: bool) -> (r: Vec<char>)
    ensures
        r@ == (if ended {
            strip_cr(l@)
        } else {
            l@
        }),
{
    let mut end: usize = l.len();
    if ended && end > 0 && l[end - 1] == '\r' {
        end = end - 1;
    }
    let mut r: Vec<char> = Vec::new();
    for i in 0..end
        invariant
            end <= l.len(),
            r@ == l@.take(i as int),
    {
        r.push(l[i]);
        assert(r@ =~= l@.take(i + 1));
    }
    assert(r@ =~= (if ended {
        strip_cr(l@)
    } else {
        l@
    }));
    r
}

/// Reads a tab-separated corpus, one sentence pair per line: the Japanese
/// sentence in field 1 and the English one in field 3 (counting from 0). The
/// first line with fewer than four fields makes the whole load fail.
pub fn parse_sentances(txt: &str) -> (r: Result<Vec<Sentance>, LoadError>)
    ensures
        r is Ok <==> (forall|i: int| 0 <= i < lines(txt@).len() ==> well_formed(#[trigger] lines(txt@)[i])),
        r matches Ok(v) ==> views(v@) == lines(txt@).map_values(|l: Seq<char>| record(l)),
        r matches Err(e) ==> (e matches LoadError::MalformedRecord(n) && n < lines(txt@).len()
            && !well_formed(lines(txt@)[n as int]) && forall|j: int|
            0 <= j < n ==> well_formed(#[trigger] lines(txt@)[j])),
{
    let cs = chars_of(txt);
    let parts = split_chars(&cs, '\n');
    let ghost pv = parts@.map_values(|v: Vec<char>| v@);
    let ghost ls = lines(txt@);
    proof {
        lemma_split_len(txt@, '\n');
    }
    let mut n: usize = parts.len();
    if parts[n - 1].len() == 0 {
        n = n - 1;
    }
    assert(ls.len() == n);
    assert(forall|i: int| 0 <= i < n ==> #[trigger] ls[i] == (if i + 1 < parts.len() {
        strip_cr(parts@[i]@)
    } else {
        parts@[i]@
    }));
    let mut out: Vec<Sentance> = Vec::new();
    for i in 0..n
        invariant
            n <= parts.len(),
            ls == lines(txt@),
            ls.len() == n,
            forall|k: int| 0 <= k < n ==> #[trigger] ls[k] == (if k + 1 < parts.len() {
                strip_cr(parts@[k]@)
            } else {
                parts@[k]@
            }),
            forall|j: int| 0 <= j < i ==> well_formed(#[trigger] ls[j]),
            views(out@) == ls.take(i as int).map_values(|l: Seq<char>| record(l)),
    {
        let line = strip_cr_chars(&parts[i], i + 1 < parts.len());
        let fs = split_chars(&line, '\t');
        assert(fs@.map_values(|v: Vec<char>| v@) == fields(ls[i as int]));
        if fs.len() < 4 {
            return Err(LoadError::MalformedRecord(i));
        }
        let s = Sentance { en: string_of(&fs[3]), jp: string_of(&fs[1]) };
        proof {
            let fv = fs@.map_values(|v: Vec<char>| v@);
            assert(fv[1] == fs@[1]@ && fv[3] == fs@[3]@);
            assert(s@ == record(ls[i as int]));
        }
        let ghost prev = out@;
        let ghost sv = s@;
        out.push(s);
        assert(views(out@) =~= views(prev).push(sv));
        assert(ls.take(i + 1).map_values(|l: Seq<char>| record(l)) =~= ls.take(i as int).map_values(
            |l: Seq<char>| record(l),
        ).push(record(ls[i as int])));
        assert(views(out@) =~= ls.take(i + 1).map_values(|l: Seq<char>| record(l)));
    }
    assert(ls.take(n as int) =~= ls);
    Ok(out)
}

} // verus!
