//! Markdown documents with a YAML front matter: reading one apart, and writing one.
use vstd::prelude::*;
use crate::text::{
    chars_of, find_from, find_from_exec, index_of, occurs_at, split_on, string_of, string_of_range,
    is_whitespace, trim, trim_start, trimmed_range,
};
use crate::metadata::{yaml_mapping_text, Metadata};
use crate::external::{
    blocks_view, markdown_blocks, markdown_root_blocks, option_text_view, yaml_of_mapping,
};
use vstd::string::StringExecFns;
use crate::post::Post;

verus! {

broadcast use vstd::string::group_string_axioms;

/// The fence that opens and closes a front matter.
pub open spec fn fence() -> Seq<char> {
    seq!['-', '-', '-']
}

/// The key under which the front matter holds the title.
pub open spec fn title_key() -> Seq<char> {
    seq!['t', 'i', 't', 'l', 'e']
}

/// What follows the second fence of `s`, the first fence being the first
/// occurrence of `---` in `s`; all of `s` when there are not two fences.
pub open spec fn body_after_frontmatter(s: Seq<char>) -> Seq<char> {
    match find_from(s, fence(), 0) {
        None => s,
        Some(i) => match find_from(s, fence(), i + 3) {
            None => s,
            Some(j) => s.subrange(j + 3, s.len() as int),
        },
    }
}

/// The key and value a front matter line holds: the text before its first colon
/// and the text after it, both trimmed; nothing if the line has no colon.
pub open spec fn line_entry(line: Seq<char>) -> Option<(Seq<char>, Seq<char>)> {
    match index_of(line, ':') {
        Some(k) => Some((trim(line.take(k)), trim(line.skip(k + 1)))),
        None => None,
    }
}

/// The metadata that `lines` hold, a later line replacing an earlier one's key.
pub open spec fn metadata_of_lines(lines: Seq<Seq<char>>) -> Map<Seq<char>, Seq<char>>
    decreases lines.len(),
{
    if lines.len() == 0 {
        Map::empty()
    } else {
        let m = metadata_of_lines(lines.drop_last());
        match line_entry(lines.last()) {
            Some(e) => m.insert(e.0, e.1),
            None => m,
        }
    }
}

/// The metadata that a YAML front matter text holds, line by line.
pub open spec fn yaml_metadata(value: Seq<char>) -> Map<Seq<char>, Seq<char>> {
    metadata_of_lines(split_on(value, '\n'))
}

/// The first YAML block among `blocks`.
pub open spec fn first_yaml_block(blocks: Seq<Option<Seq<char>>>) -> Option<Seq<char>>
    decreases blocks.len(),
{
    if blocks.len() == 0 {
        None
    } else if blocks[0] is Some {
        blocks[0]
    } else {
        first_yaml_block(blocks.drop_first())
    }
}

/// The metadata of a document whose root holds `blocks`: that of its first YAML
/// block, if it has one, else none.
pub open spec fn frontmatter_metadata(blocks: Option<Seq<Option<Seq<char>>>>) -> Map<Seq<char>, Seq<char>> {
    match blocks {
        Some(bs) => match first_yaml_block(bs) {
            Some(y) => yaml_metadata(y),
            None => Map::empty(),
        },
        None => Map::empty(),
    }
}

/// A document made of a front matter and a body.
pub open spec fn document_text(frontmatter: Seq<char>, body: Seq<char>) -> Seq<char> {
    seq!['-', '-', '-', '\n'] + frontmatter + seq!['\n', '-', '-', '-', '\n'] + body
}

/// The front matter mapping written for a post: its title under `title`, unless
/// its own metadata has that key, and its metadata.
pub open spec fn package_metadata(title: Seq<char>, metadata: Map<Seq<char>, Seq<char>>) -> Map<Seq<char>, Seq<char>> {
    Map::<Seq<char>, Seq<char>>::empty().insert(title_key(), title).union_prefer_right(metadata)
}

/// The parts of a markdown document.
pub struct ExtractResult {
    pub title: Option<String>,
    pub content: String,
    pub metadata: Metadata,
}

proof fn lemma_index_of(s: Seq<char>, c: char, p: int)
    requires
        0 <= p <= s.len(),
        forall|j: int| 0 <= j < p ==> s[j] != c,
        p < s.len() ==> s[p] == c,
    ensures
        index_of(s, c) == (if p < s.len() { Some(p) } else { None::<int> }),
    decreases p,
{
    if s.len() > 0 && p > 0 {
        lemma_index_of(s.drop_first(), c, p - 1);
    }
}

/// The string `"title"`.
fn title_string() -> (res: String)
    ensures
        res@ == title_key(),
{
    let s = "title".to_string();
    proof {
        reveal_strlit("title");
    }
    s
}

/// Adds the entry of the line `v[lo..hi]` to `m`, if the line holds one.
fn add_line_entry(m: &mut Metadata, v: &Vec<char>, lo: usize, hi: usize)
    requires
        lo <= hi <= v.len(),
    ensures
        final(m)@ == match line_entry(v@.subrange(lo as int, hi as int)) {
            Some(e) => old(m)@.insert(e.0, e.1),
            None => old(m)@,
        },
{
    let ghost line = v@.subrange(lo as int, hi as int);
    let mut p = lo;
    while p < hi && v[p] != ':'
        invariant
            lo <= p <= hi <= v.len(),
            forall|j: int| lo <= j < p ==> v@[j] != ':',
        decreases hi - p,
    {
        p = p + 1;
    }
    proof {
        assert forall|j: int| 0 <= j < p - lo implies line[j] != ':' by {
            assert(line[j] == v@[lo + j]);
        }
        lemma_index_of(line, ':', p - lo);
    }
    if p < hi {
        let key = trimmed_range(v, lo, p);
        let value = trimmed_range(v, p + 1, hi);
        proof {
            assert(line.take(p - lo) == v@.subrange(lo as int, p as int));
            assert(line.skip(p - lo + 1) == v@.subrange(p + 1, hi as int));
        }
        m.insert(key, value);
    }
}

/// The metadata that a YAML front matter text holds: for each line with a colon,
/// its trimmed key and trimmed value.
pub fn metadata_from_yaml(value: &str) -> (res: Metadata)
    ensures
        res@ == yaml_metadata(value@),
{
    let v = chars_of(value);
    let mut m = Metadata::new();
    let mut start: usize = 0;
    let mut i: usize = 0;
    proof {
        assert(v@.take(0) =~= Seq::<char>::empty());
        assert(split_on(v@.take(0), '\n') == seq![Seq::<char>::empty()]);
        assert(split_on(v@.take(0), '\n').drop_last() =~= Seq::<Seq<char>>::empty());
        assert(v@.subrange(0, 0) =~= Seq::<char>::empty());
    }
    while i < v.len()
        invariant
            0 <= start <= i <= v.len(),
            split_on(v@.take(i as int), '\n').len() >= 1,
            split_on(v@.take(i as int), '\n').last() == v@.subrange(start as int, i as int),
            m@ == metadata_of_lines(split_on(v@.take(i as int), '\n').drop_last()),
        decreases v.len() - i,
    {
        let ghost prev = split_on(v@.take(i as int), '\n');
        proof {
            assert(v@.take(i + 1).drop_last() == v@.take(i as int));
            assert(v@.take(i + 1).last() == v@[i as int]);
        }
        if v[i] == '\n' {
            add_line_entry(&mut m, &v, start, i);
            proof {
                let next = split_on(v@.take(i + 1), '\n');
                assert(next == prev.push(Seq::<char>::empty()));
                assert(next.drop_last() == prev);
                assert(v@.subrange(i + 1, i + 1) =~= Seq::<char>::empty());
            }
            start = i + 1;
        } else {
            proof {
                let next = split_on(v@.take(i + 1), '\n');
                assert(next == prev.update(prev.len() - 1, prev.last().push(v@[i as int])));
                assert(next.drop_last() =~= prev.drop_last());
                assert(v@.subrange(start as int, i + 1) == v@.subrange(start as int, i as int).push(
                    v@[i as int],
                ));
            }
        }
        i = i + 1;
    }
    add_line_entry(&mut m, &v, start, v.len());
    proof {
        assert(v@.take(v@.len() as int) == v@);
        let ls = split_on(v@, '\n');
        assert(ls.drop_last().len() + 1 == ls.len());
    }
    m
}

/// The metadata of a root child: that of its YAML text if it is a YAML block.
pub fn extract_metadata(block: &Option<String>) -> (res: Option<Metadata>)
    ensures
        match block {
            Some(y) => res matches Some(m) && m@ == yaml_metadata(y@),
            None => res is None,
        },
{
    match block {
        Some(y) => Some(metadata_from_yaml(y.as_str())),
        None => None,
    }
}

/// What follows the second fence of `content`, or all of `content` when it does not
/// have two fences.
pub fn body_of(content: &str) -> (res: String)
    ensures
        res@ == body_after_frontmatter(content@),
{
    let v = chars_of(content);
    let pat = chars_of("---");
    proof {
        reveal_strlit("---");
        assert(pat@ == fence());
        assert(pat@.len() == 3);
    }
    let n = v.len();
    match find_from_exec(&v, &pat, 0) {
        None => string_of(&v),
        Some(i) => match find_from_exec(&v, &pat, i + 3) {
            None => string_of(&v),
            Some(j) => {
                proof {
                    assert(occurs_at(v@, fence(), j as int)) by {
                        lemma_find_from_occurs(v@, fence(), i + 3);
                    }
                }
                string_of_range(&v, j + 3, v.len())
            },
        },
    }
}

/// A position that `find_from` gives is one where the pattern occurs.
proof fn lemma_find_from_occurs(s: Seq<char>, pat: Seq<char>, i: int)
    ensures
        find_from(s, pat, i) matches Some(j) ==> occurs_at(s, pat, j) && i <= j,
    decreases s.len() - i,
{
    if !(i < 0 || i + pat.len() > s.len()) && !occurs_at(s, pat, i) && i < s.len() {
        lemma_find_from_occurs(s, pat, i + 1);
    }
}

/// The parts of `content`, given the root's children that the markdown parser
/// found in it: the title and the other pairs of the first YAML block, and what
/// follows the front matter.
pub fn extract_from_blocks(content: &str, blocks: Option<Vec<Option<String>>>) -> (res: ExtractResult)
    ensures
        res.content@ == body_after_frontmatter(content@),
        res.title is Some <==> frontmatter_metadata(blocks_view(blocks)).contains_key(title_key()),
        res.title matches Some(t) ==> t@ == frontmatter_metadata(blocks_view(blocks))[title_key()],
        res.metadata@ == frontmatter_metadata(blocks_view(blocks)).remove(title_key()),
{
    let body = body_of(content);
    let mut metadata = Metadata::new();
    match blocks {
        Some(children) => {
            let mut i: usize = 0;
            let mut found: Option<Metadata> = None;
            let ghost bs = children@.map_values(|b: Option<String>| option_text_view(b));
            while i < children.len() && found.is_none()
                invariant
                    0 <= i <= children.len(),
                    bs == children@.map_values(|b: Option<String>| option_text_view(b)),
                    found is None ==> forall|j: int| 0 <= j < i ==> bs[j] is None,
                    found matches Some(m) ==> {
                        &&& 1 <= i
                        &&& forall|j: int| 0 <= j < i - 1 ==> bs[j] is None
                        &&& bs[i - 1] is Some
                        &&& m@ == yaml_metadata(bs[i - 1]->0)
                    },
                decreases children.len() - i,
            {
                found = extract_metadata(&children[i]);
                i = i + 1;
            }
            match found {
                Some(m) => {
                    proof {
                        lemma_first_yaml_block(bs, i - 1);
                    }
                    metadata = m;
                },
                None => {
                    proof {
                        lemma_first_yaml_block(bs, i as int);
                    }
                },
            }
        },
        None => {},
    }
    assert(metadata@ == frontmatter_metadata(blocks_view(blocks)));
    let key = title_string();
    let title = metadata.get(&key);
    metadata.remove(&key);
    ExtractResult { title, content: body, metadata }
}

proof fn lemma_first_yaml_block(bs: Seq<Option<Seq<char>>>, i: int)
    requires
        0 <= i <= bs.len(),
        forall|j: int| 0 <= j < i ==> bs[j] is None,
    ensures
        i < bs.len() && bs[i] is Some ==> first_yaml_block(bs) == bs[i],
        i == bs.len() ==> first_yaml_block(bs) is None,
    decreases i,
{
    if i > 0 && bs.len() > 0 {
        lemma_first_yaml_block(bs.drop_first(), i - 1);
    }
}

/// The parts of a markdown document: the title and the other pairs of its YAML
/// front matter, and the text that follows the front matter.
pub fn extract(content: &str) -> (res: Result<ExtractResult, String>)
    ensures
        res is Ok,
        res matches Ok(r) ==> {
            &&& r.content@ == body_after_frontmatter(content@)
            &&& r.title is Some <==> frontmatter_metadata(markdown_root_blocks(content@)).contains_key(
                title_key(),
            )
            &&& r.title matches Some(t) ==> t@ == frontmatter_metadata(
                markdown_root_blocks(content@),
            )[title_key()]
            &&& r.metadata@ == frontmatter_metadata(markdown_root_blocks(content@)).remove(
                title_key(),
            )
        },
{
    match markdown_blocks(content) {
        Ok(blocks) => Ok(extract_from_blocks(content, blocks)),
        Err(message) => Err(message),
    }
}

/// The markdown document of a post: a YAML front matter with its title and
/// metadata, then its content; or the message of the YAML serialiser's error.
pub fn package(post: &Post) -> (res: Result<String, String>)
    ensures
        match yaml_of_mapping(package_metadata(post.title@, post.metadata@)) {
            Ok(y) => res matches Ok(s) && s@ == document_text(y, post.content@),
            Err(e) => res matches Err(m) && m@ == e,
        },
{
    let mut metadata = Metadata::new();
    metadata.insert(title_string(), post.title.clone());
    metadata.extend(post.metadata.duplicate());
    assert(metadata@ == package_metadata(post.title@, post.metadata@));
    frontmatter_document(yaml_mapping_text(&metadata), post.content.as_str())
}

/// The document made of the front matter that the YAML serialiser gave and the
/// body `content`; the serialiser's error is handed on.
pub fn frontmatter_document(frontmatter: Result<String, String>, content: &str) -> (res: Result<String, String>)
    ensures
        match frontmatter {
            Ok(y) => res matches Ok(s) && s@ == document_text(y@, content@),
            Err(m) => res == Err::<String, String>(m),
        },
{
    let frontmatter = match frontmatter {
        Ok(text) => text,
        Err(message) => {
            return Err(message);
        },
    };
    let mut document = "---\n".to_string();
    document.append(frontmatter.as_str());
    document.append("\n---\n");
    document.append(content);
    proof {
        reveal_strlit("---\n");
        reveal_strlit("\n---\n");
        assert(document@ =~= document_text(frontmatter@, content@));
    }
    Ok(document)
}

/// Whether `---` occurs anywhere in `s`.
pub open spec fn has_fence(s: Seq<char>) -> bool {
    exists|k: int| occurs_at(s, fence(), k)
}

proof fn lemma_find_from_skip(s: Seq<char>, pat: Seq<char>, i: int, j: int)
    requires
        0 <= i <= j,
        pat.len() > 0,
        j + pat.len() <= s.len(),
        forall|k: int| i <= k < j ==> !occurs_at(s, pat, k),
    ensures
        find_from(s, pat, i) == find_from(s, pat, j),
    decreases j - i,
{
    if i < j {
        assert(!occurs_at(s, pat, i));
        lemma_find_from_skip(s, pat, i + 1, j);
    }
}

/// Reading back what `package` writes: the text that follows the front matter of
/// a document made of a front matter and a body is the body after one line
/// break, whenever the front matter does not itself hold `---`.
pub proof fn lemma_body_of_document(frontmatter: Seq<char>, body: Seq<char>)
    requires
        !has_fence(frontmatter),
    ensures
        body_after_frontmatter(document_text(frontmatter, body)) == seq!['\n'] + body,
{
    let d = document_text(frontmatter, body);
    let f = frontmatter.len() as int;
    assert(d.len() == 9 + f + body.len());
    assert forall|k: int| 0 <= k < 4 implies d[k] == seq!['-', '-', '-', '\n'][k] by {}
    assert forall|k: int| 0 <= k < f implies d[4 + k] == frontmatter[k] by {}
    assert forall|k: int| 0 <= k < 5 implies d[4 + f + k] == seq!['\n', '-', '-', '-', '\n'][k] by {}
    assert forall|k: int| 0 <= k < body.len() implies d[9 + f + k] == body[k] by {}
    assert(d.subrange(0, 3) =~= fence());
    assert(occurs_at(d, fence(), 0));
    assert(find_from(d, fence(), 0) == Some(0int));
    assert forall|k: int| 3 <= k < 5 + f implies !occurs_at(d, fence(), k) by {
        if occurs_at(d, fence(), k) {
            let w = d.subrange(k, k + 3);
            if k == 3 {
                assert(w[0] == d[3]);
            } else if k + 3 <= 4 + f {
                assert(frontmatter.subrange(k - 4, k - 1) =~= w);
                assert(occurs_at(frontmatter, fence(), k - 4));
            } else {
                assert(w[4 + f - k] == d[4 + f]);
            }
        }
    }
    assert(d.subrange(5 + f, 8 + f) =~= fence());
    assert(occurs_at(d, fence(), 5 + f));
    lemma_find_from_skip(d, fence(), 3, 5 + f);
    assert(d.subrange(8 + f, d.len() as int) =~= seq!['\n'] + body);
}

/// A pair that a YAML serialiser writes as the plain line `key: value`: neither
/// holds a line break, the key holds no colon, and neither has leading or
/// trailing whitespace.
pub open spec fn plain_pair(p: (Seq<char>, Seq<char>)) -> bool {
    &&& forall|i: int| 0 <= i < p.0.len() ==> p.0[i] != '\n' && p.0[i] != ':'
    &&& forall|i: int| 0 <= i < p.1.len() ==> p.1[i] != '\n'
    &&& trim(p.0) == p.0
    &&& trim(p.1) == p.1
}

/// The line `key: value` of a pair.
pub open spec fn yaml_line(p: (Seq<char>, Seq<char>)) -> Seq<char> {
    p.0 + seq![':', ' '] + p.1
}

/// The lines of `pairs`, each ended by a line break.
pub open spec fn yaml_lines(pairs: Seq<(Seq<char>, Seq<char>)>) -> Seq<char>
    decreases pairs.len(),
{
    if pairs.len() == 0 {
        Seq::empty()
    } else {
        yaml_lines(pairs.drop_last()) + yaml_line(pairs.last()) + seq!['\n']
    }
}

/// The mapping that storing `pairs` in order gives, a later pair replacing an
/// earlier one's key.
pub open spec fn mapping_of_pairs(pairs: Seq<(Seq<char>, Seq<char>)>) -> Map<Seq<char>, Seq<char>>
    decreases pairs.len(),
{
    if pairs.len() == 0 {
        Map::empty()
    } else {
        mapping_of_pairs(pairs.drop_last()).insert(pairs.last().0, pairs.last().1)
    }
}

proof fn lemma_split_on_nonempty(s: Seq<char>, sep: char)
    ensures
        split_on(s, sep).len() >= 1,
    decreases s.len(),
{
    if s.len() > 0 {
        lemma_split_on_nonempty(s.drop_last(), sep);
    }
}

proof fn lemma_split_on_concat(a: Seq<char>, b: Seq<char>, sep: char)
    requires
        a.len() == 0 || a.last() == sep,
    ensures
        split_on(a + b, sep) == split_on(a, sep).drop_last() + split_on(b, sep),
    decreases b.len(),
{
    lemma_split_on_nonempty(a, sep);
    if b.len() == 0 {
        assert(a + b == a);
        if a.len() == 0 {
            assert(split_on(a, sep).drop_last() + split_on(b, sep) =~= split_on(a, sep));
        } else {
            assert(a.drop_last() + seq![a.last()] == a);
            assert(split_on(a, sep).last() == Seq::<char>::empty());
            assert(split_on(a, sep).drop_last() + split_on(b, sep) =~= split_on(a, sep));
        }
    } else {
        let b1 = b.drop_last();
        lemma_split_on_concat(a, b1, sep);
        lemma_split_on_nonempty(b1, sep);
        assert((a + b).drop_last() == a + b1);
        assert((a + b).last() == b.last());
        let left = split_on(a, sep).drop_last();
        let prev = split_on(b1, sep);
        if b.last() == sep {
            assert(left + prev.push(Seq::<char>::empty()) =~= (left + prev).push(Seq::<char>::empty()));
        } else {
            assert(left + prev.update(prev.len() - 1, prev.last().push(b.last())) =~= (left
                + prev).update((left + prev).len() - 1, (left + prev).last().push(b.last())));
        }
    }
}

proof fn lemma_split_on_without_sep(s: Seq<char>, sep: char)
    requires
        forall|i: int| 0 <= i < s.len() ==> s[i] != sep,
    ensures
        split_on(s, sep) == seq![s],
    decreases s.len(),
{
    if s.len() > 0 {
        lemma_split_on_without_sep(s.drop_last(), sep);
        assert(s.drop_last().push(s.last()) == s);
        assert(seq![s.drop_last()].update(0, s.drop_last().push(s.last())) =~= seq![s]);
    } else {
        assert(s == Seq::<char>::empty());
    }
}

proof fn lemma_lines_of_yaml(pairs: Seq<(Seq<char>, Seq<char>)>)
    requires
        forall|i: int| 0 <= i < pairs.len() ==> plain_pair(#[trigger] pairs[i]),
    ensures
        split_on(yaml_lines(pairs), '\n') == pairs.map_values(|p: (Seq<char>, Seq<char>)| yaml_line(p)).push(
            Seq::<char>::empty(),
        ),
    decreases pairs.len(),
{
    let f = |p: (Seq<char>, Seq<char>)| yaml_line(p);
    if pairs.len() == 0 {
        assert(split_on(Seq::<char>::empty(), '\n') == seq![Seq::<char>::empty()]);
        assert(pairs.map_values(f).push(Seq::<char>::empty()) =~= seq![Seq::<char>::empty()]);
    } else {
        let p = pairs.drop_last();
        let q = pairs.last();
        assert forall|i: int| 0 <= i < p.len() implies plain_pair(#[trigger] p[i]) by {
            assert(p[i] == pairs[i]);
        }
        lemma_lines_of_yaml(p);
        let line = yaml_line(q);
        assert(plain_pair(pairs[pairs.len() - 1]));
        assert forall|i: int| 0 <= i < line.len() implies line[i] != '\n' by {
            if i < q.0.len() {
                assert(line[i] == q.0[i]);
            } else if i >= q.0.len() + 2 {
                assert(line[i] == q.1[i - q.0.len() - 2]);
            }
        }
        lemma_split_on_without_sep(line, '\n');
        let ended = line + seq!['\n'];
        assert(ended.drop_last() == line);
        assert(split_on(ended, '\n') == seq![line, Seq::<char>::empty()]);
        let a = yaml_lines(p);
        assert(a.len() == 0 || a.last() == '\n');
        assert(yaml_lines(pairs) == a + ended);
        lemma_split_on_concat(a, ended, '\n');
        assert(pairs.map_values(f) =~= p.map_values(f).push(line));
        assert(split_on(yaml_lines(pairs), '\n') =~= pairs.map_values(f).push(Seq::<char>::empty()));
    }
}

proof fn lemma_line_entry_of_yaml_line(q: (Seq<char>, Seq<char>))
    requires
        plain_pair(q),
    ensures
        line_entry(yaml_line(q)) == Some(q),
{
    let line = yaml_line(q);
    let k = q.0.len() as int;
    assert forall|j: int| 0 <= j < k implies line[j] != ':' by {
        assert(line[j] == q.0[j]);
    }
    lemma_index_of(line, ':', k);
    assert(line.take(k) =~= q.0);
    let rest = line.skip(k + 1);
    assert(rest =~= seq![' '] + q.1);
    assert(rest.len() > 0 && is_whitespace(rest[0]));
    assert(rest.drop_first() =~= q.1);
    assert(trim_start(rest) == trim_start(q.1));
}

proof fn lemma_metadata_of_yaml_lines(pairs: Seq<(Seq<char>, Seq<char>)>)
    requires
        forall|i: int| 0 <= i < pairs.len() ==> plain_pair(#[trigger] pairs[i]),
    ensures
        metadata_of_lines(pairs.map_values(|p: (Seq<char>, Seq<char>)| yaml_line(p)))
            == mapping_of_pairs(pairs),
    decreases pairs.len(),
{
    let f = |p: (Seq<char>, Seq<char>)| yaml_line(p);
    if pairs.len() > 0 {
        let p = pairs.drop_last();
        assert forall|i: int| 0 <= i < p.len() implies plain_pair(#[trigger] p[i]) by {
            assert(p[i] == pairs[i]);
        }
        lemma_metadata_of_yaml_lines(p);
        assert(pairs.map_values(f).drop_last() =~= p.map_values(f));
        assert(pairs.map_values(f).last() == yaml_line(pairs.last()));
        assert(plain_pair(pairs[pairs.len() - 1]));
        lemma_line_entry_of_yaml_line(pairs.last());
    }
}

/// Reading back what `package` writes: when the YAML serialiser writes each pair
/// of the front matter mapping as a plain `key: value` line and the markdown
/// parser gives that text back as the document's first YAML block, extracting the
/// document gives back the post's title, its metadata, and its body after one
/// line break.
pub proof fn lemma_extract_of_package(
    title: Seq<char>,
    metadata: Map<Seq<char>, Seq<char>>,
    body: Seq<char>,
    pairs: Seq<(Seq<char>, Seq<char>)>,
)
    requires
        !metadata.contains_key(title_key()),
        forall|i: int| 0 <= i < pairs.len() ==> plain_pair(#[trigger] pairs[i]),
        mapping_of_pairs(pairs) == package_metadata(title, metadata),
        yaml_of_mapping(package_metadata(title, metadata)) == Ok::<Seq<char>, Seq<char>>(yaml_lines(pairs)),
        !has_fence(yaml_lines(pairs)),
        markdown_root_blocks(document_text(yaml_lines(pairs), body)) matches Some(bs) && first_yaml_block(bs)
            == Some(yaml_lines(pairs)),
    ensures
        ({
            let doc = document_text(yaml_lines(pairs), body);
            let m = frontmatter_metadata(markdown_root_blocks(doc));
            &&& m.contains_key(title_key())
            &&& m[title_key()] == title
            &&& m.remove(title_key()) == metadata
            &&& body_after_frontmatter(doc) == seq!['\n'] + body
        }),
{
    let doc = document_text(yaml_lines(pairs), body);
    let f = |p: (Seq<char>, Seq<char>)| yaml_line(p);
    lemma_lines_of_yaml(pairs);
    lemma_metadata_of_yaml_lines(pairs);
    let ls = pairs.map_values(f).push(Seq::<char>::empty());
    assert(ls.drop_last() == pairs.map_values(f));
    assert(index_of(Seq::<char>::empty(), ':') is None);
    assert(line_entry(ls.last()) is None);
    assert(yaml_metadata(yaml_lines(pairs)) == mapping_of_pairs(pairs));
    let m = package_metadata(title, metadata);
    assert(m.remove(title_key()) =~= metadata);
    lemma_body_of_document(yaml_lines(pairs), body);
}

} // verus!
