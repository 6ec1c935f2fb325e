//! How an entry's body is assembled for the reader: the source is cut at its
//! lone in-folder images, the text between them becomes markdown chunks, and
//! each image becomes a numbered, clickable label in its place.
use vstd::prelude::*;
use crate::markdown::{is_whitespace_char, whitespace};
use crate::text::{push_char, string_of};

verus! {

/// One piece of the assembled body.
#[derive(Debug)]
pub enum BodyPart {
    /// An empty display row.
    Blank,
    /// Markdown text to render as one chunk.
    Chunk(String),
    /// The label of the image with this number (from zero) and alt text.
    Image(usize, String),
}

/// A body part as a plain value.
pub enum PartView {
    Blank,
    Chunk(Seq<char>),
    Image(int, Seq<char>),
}

pub open spec fn part_view(part: BodyPart) -> PartView {
    match part {
        BodyPart::Blank => PartView::Blank,
        BodyPart::Chunk(text) => PartView::Chunk(text@),
        BodyPart::Image(index, alt) => PartView::Image(index as int, alt@),
    }
}

pub open spec fn parts_view(parts: Seq<BodyPart>) -> Seq<PartView> {
    parts.map_values(|p: BodyPart| part_view(p))
}

/// Whether a line holds only whitespace.
pub open spec fn is_blank(line: Seq<char>) -> bool {
    forall|i: int| 0 <= i < line.len() ==> whitespace(#[trigger] line[i])
}

/// The assembly so far: the parts, the text waiting to become a chunk,
/// whether the last row was an image label with nothing buffered since, and
/// the next image's number.
#[verifier::ext_equal]
pub struct Assembly {
    pub parts: Seq<PartView>,
    pub buffer: Seq<char>,
    pub after_image: bool,
    pub next_image: int,
}

/// The assembly before the first line: a blank row so the body starts one
/// line below the border.
pub open spec fn start_assembly() -> Assembly {
    Assembly { parts: seq![PartView::Blank], buffer: seq![], after_image: false, next_image: 0 }
}

/// Take one source line. A text line joins the buffer (after a newline when
/// the buffer has text), except that a blank line right after an image, with
/// nothing buffered, is kept as an explicit blank row. An image line flushes
/// the buffer as a chunk (doubling a trailing newline so the gap before the
/// label survives) and adds its label.
pub open spec fn take_line(a: Assembly, line: Seq<char>, image: Option<Seq<char>>) -> Assembly {
    match image {
        None => if a.after_image && a.buffer.len() == 0 && is_blank(line) {
            Assembly { parts: a.parts.push(PartView::Blank), ..a }
        } else {
            Assembly {
                buffer: if a.buffer.len() == 0 { line } else { a.buffer + seq!['\n'] + line },
                after_image: false,
                ..a
            }
        },
        Some(alt) => {
            let flushed = if a.buffer.len() > 0 {
                a.parts.push(
                    PartView::Chunk(if a.buffer.last() == '\n' { a.buffer.push('\n') } else { a.buffer }),
                )
            } else {
                a.parts
            };
            Assembly {
                parts: flushed.push(PartView::Image(a.next_image, alt)),
                buffer: seq![],
                after_image: true,
                next_image: a.next_image + 1,
            }
        },
    }
}

/// The assembly after the first `i` characters of `content`, with the line
/// being read and its number; `images[k]` is the alt text of line `k` when
/// it is a lone image.
pub open spec fn scan(content: Seq<char>, images: Seq<Option<Seq<char>>>, i: int) -> (Assembly, Seq<char>, int)
    decreases i,
{
    if i <= 0 {
        (start_assembly(), seq![], 0)
    } else {
        let (a, line, k) = scan(content, images, i - 1);
        if content[i - 1] == '\n' {
            (take_line(a, line, images[k]), seq![], k + 1)
        } else {
            (a, line.push(content[i - 1]), k)
        }
    }
}

/// The lines of `content` (its pieces between newlines).
pub open spec fn line_count(content: Seq<char>) -> int {
    scan(content, Seq::empty(), content.len() as int).2 + 1
}

/// The body's parts: every line taken, then the buffer's rest as a final
/// chunk.
pub open spec fn spec_body_parts(content: Seq<char>, images: Seq<Option<Seq<char>>>) -> Seq<PartView> {
    let (a, line, k) = scan(content, images, content.len() as int);
    let last = take_line(a, line, images[k]);
    if last.buffer.len() > 0 {
        last.parts.push(PartView::Chunk(last.buffer))
    } else {
        last.parts
    }
}

pub open spec fn image_view(image: Option<String>) -> Option<Seq<char>> {
    match image {
        Some(s) => Some(s@),
        None => None,
    }
}

pub open spec fn images_view(images: Seq<Option<String>>) -> Seq<Option<Seq<char>>> {
    images.map_values(|i: Option<String>| image_view(i))
}

proof fn lemma_scan_index_independent(content: Seq<char>, a: Seq<Option<Seq<char>>>, b: Seq<Option<Seq<char>>>, i: int)
    ensures
        scan(content, a, i).2 == scan(content, b, i).2,
    decreases i,
{
    if i > 0 {
        lemma_scan_index_independent(content, a, b, i - 1);
    }
}

proof fn lemma_scan_index_monotone(content: Seq<char>, images: Seq<Option<Seq<char>>>, i: int, j: int)
    requires
        0 <= i <= j,
    ensures
        scan(content, images, i).2 <= scan(content, images, j).2,
        scan(content, images, i).2 >= 0,
    decreases j,
{
    if j > i {
        lemma_scan_index_monotone(content, images, i, j - 1);
    } else if i > 0 {
        lemma_scan_index_monotone(content, images, i - 1, i - 1);
    }
}

/// Whether every character of `line` is whitespace.
fn blank_line(line: &String) -> (blank: bool)
    ensures
        blank == is_blank(line@),
{
    let n = line.unicode_len();
    let mut k: usize = 0;
    while k < n
        invariant
            n == line@.len(),
            k <= n,
            forall|i: int| 0 <= i < k ==> whitespace(#[trigger] line@[i]),
        decreases n - k,
    {
        if !is_whitespace_char(line.as_str().get_char(k)) {
            return false;
        }
        k += 1;
    }
    true
}

/// The assembly's state, held in executable values.
struct Assembler {
    parts: Vec<BodyPart>,
    buffer: String,
    after_image: bool,
    next_image: usize,
}

impl Assembler {
    spec fn view(&self) -> Assembly {
        Assembly {
            parts: parts_view(self.parts@),
            buffer: self.buffer@,
            after_image: self.after_image,
            next_image: self.next_image as int,
        }
    }

    fn take_line(&mut self, line: &String, image: &Option<String>)
        requires
            old(self).next_image < usize::MAX,
        ensures
            final(self).view() == take_line(old(self).view(), line@, image_view(*image)),
            final(self).next_image <= old(self).next_image + 1,
    {
        let ghost before = self.view();
        match image {
            None => {
                if self.after_image && self.buffer.unicode_len() == 0 && blank_line(line) {
                    self.parts.push(BodyPart::Blank);
                    assert(parts_view(self.parts@) =~= before.parts.push(PartView::Blank));
                } else {
                    if self.buffer.unicode_len() == 0 {
                        self.buffer = string_of(line.as_str());
                    } else {
                        push_char(&mut self.buffer, '\n');
                        self.buffer.append(line.as_str());
                        assert(self.buffer@ =~= before.buffer + seq!['\n'] + line@);
                    }
                    self.after_image = false;
                    assert(parts_view(self.parts@) == before.parts);
                }
                assert(self.view() =~= take_line(before, line@, image_view(*image)));
            },
            Some(alt) => {
                let n = self.buffer.unicode_len();
                if n > 0 {
                    let mut chunk = string_of(self.buffer.as_str());
                    if self.buffer.as_str().get_char(n - 1) == '\n' {
                        push_char(&mut chunk, '\n');
                    }
                    self.parts.push(BodyPart::Chunk(chunk));
                }
                let ghost flushed = parts_view(self.parts@);
                self.parts.push(BodyPart::Image(self.next_image, string_of(alt.as_str())));
                assert(parts_view(self.parts@) =~= flushed.push(PartView::Image(before.next_image, alt@)));
                self.buffer = String::new();
                self.after_image = true;
                self.next_image = self.next_image + 1;
            },
        }
    }
}

/// Assemble an entry's body for the reader from its source `content` and,
/// when the entry has a folder, which of its lines (split at newlines) are
/// lone images and their alt text. Without a folder the whole source is one
/// chunk after the leading blank row.
pub fn body_parts(content: &str, images: Option<&Vec<Option<String>>>) -> (parts: Vec<BodyPart>)
    requires
        images matches Some(imgs) ==> imgs@.len() == line_count(content@),
    ensures
        parts_view(parts@) == match images {
            None => seq![PartView::Blank, PartView::Chunk(content@)],
            Some(imgs) => spec_body_parts(content@, images_view(imgs@)),
        },
{
    let images = match images {
        None => {
            let mut parts: Vec<BodyPart> = Vec::new();
            parts.push(BodyPart::Blank);
            parts.push(BodyPart::Chunk(string_of(content)));
            assert(parts_view(parts@) =~= seq![PartView::Blank, PartView::Chunk(content@)]);
            return parts;
        },
        Some(imgs) => imgs,
    };
    let ghost iv = images_view(images@);
    let mut assembler = Assembler { parts: Vec::new(), buffer: String::new(), after_image: false, next_image: 0 };
    assembler.parts.push(BodyPart::Blank);
    assert(assembler.view().parts =~= seq![PartView::Blank]);
    let n = content.unicode_len();
    let mut line = String::new();
    let mut k: usize = 0;
    let mut i: usize = 0;
    proof {
        lemma_scan_index_independent(content@, iv, Seq::empty(), n as int);
        lemma_scan_index_monotone(content@, iv, 0, n as int);
    }
    while i < n
        invariant
            n == content@.len(),
            i <= n,
            iv == images_view(images@),
            images@.len() == scan(content@, iv, n as int).2 + 1,
            scan(content@, iv, i as int) == (assembler.view(), line@, k as int),
            assembler.next_image <= k,
            k <= scan(content@, iv, n as int).2,
        decreases n - i,
    {
        let c = content.get_char(i);
        proof {
            lemma_scan_index_monotone(content@, iv, i + 1, n as int);
        }
        let count = images.len();
        if c == '\n' {
            assembler.take_line(&line, &images[k]);
            line = String::new();
            k += 1;
        } else {
            push_char(&mut line, c);
        }
        i += 1;
    }
    let count = images.len();
    assembler.take_line(&line, &images[k]);
    if assembler.buffer.unicode_len() > 0 {
        let rest = string_of(assembler.buffer.as_str());
        let ghost before = parts_view(assembler.parts@);
        assembler.parts.push(BodyPart::Chunk(rest));
        assert(parts_view(assembler.parts@) =~= before.push(PartView::Chunk(assembler.buffer@)));
    }
    assembler.parts
}


/// The image labels among `parts`, in order, as `(number, alt text)`.
pub open spec fn image_parts(parts: Seq<PartView>) -> Seq<(int, Seq<char>)>
    decreases parts.len(),
{
    if parts.len() == 0 {
        seq![]
    } else {
        let before = image_parts(parts.drop_last());
        match parts.last() {
            PartView::Image(number, alt) => before.push((number, alt)),
            _ => before,
        }
    }
}

/// The alt texts of the lines that are lone images, in order.
pub open spec fn lone_images(images: Seq<Option<Seq<char>>>) -> Seq<Seq<char>>
    decreases images.len(),
{
    if images.len() == 0 {
        seq![]
    } else {
        match images.last() {
            Some(alt) => lone_images(images.drop_last()).push(alt),
            None => lone_images(images.drop_last()),
        }
    }
}

/// `alts` numbered from zero.
pub open spec fn numbered(alts: Seq<Seq<char>>) -> Seq<(int, Seq<char>)> {
    Seq::new(alts.len(), |i: int| (i, alts[i]))
}

proof fn lemma_push_other(parts: Seq<PartView>, p: PartView)
    requires
        !(p is Image),
    ensures
        image_parts(parts.push(p)) == image_parts(parts),
{
    assert(parts.push(p).drop_last() =~= parts);
}

proof fn lemma_push_image(parts: Seq<PartView>, number: int, alt: Seq<char>)
    ensures
        image_parts(parts.push(PartView::Image(number, alt))) == image_parts(parts).push((number, alt)),
{
    assert(parts.push(PartView::Image(number, alt)).drop_last() =~= parts);
}

proof fn lemma_take_line_images(a: Assembly, line: Seq<char>, image: Option<Seq<char>>)
    ensures
        image_parts(take_line(a, line, image).parts) == match image {
            None => image_parts(a.parts),
            Some(alt) => image_parts(a.parts).push((a.next_image, alt)),
        },
        take_line(a, line, image).next_image == a.next_image + (if image is Some { 1int } else { 0int }),
{
    match image {
        None => {
            if a.after_image && a.buffer.len() == 0 && is_blank(line) {
                lemma_push_other(a.parts, PartView::Blank);
            }
        },
        Some(alt) => {
            let flushed = if a.buffer.len() > 0 {
                let chunk = PartView::Chunk(if a.buffer.last() == '\n' { a.buffer.push('\n') } else { a.buffer });
                lemma_push_other(a.parts, chunk);
                a.parts.push(chunk)
            } else {
                a.parts
            };
            lemma_push_image(flushed, a.next_image, alt);
        },
    }
}

proof fn lemma_scan_images(content: Seq<char>, images: Seq<Option<Seq<char>>>, i: int)
    requires
        0 <= i <= content.len(),
        scan(content, images, i).2 < images.len(),
    ensures
        image_parts(scan(content, images, i).0.parts) == numbered(
            lone_images(images.take(scan(content, images, i).2)),
        ),
        scan(content, images, i).0.next_image == lone_images(images.take(scan(content, images, i).2)).len(),
    decreases i,
{
    if i == 0 {
        assert(images.take(0) =~= Seq::<Option<Seq<char>>>::empty());
        assert(lone_images(images.take(0)) =~= Seq::<Seq<char>>::empty());
        lemma_push_other(Seq::<PartView>::empty(), PartView::Blank);
        assert(Seq::<PartView>::empty().push(PartView::Blank) =~= start_assembly().parts);
        assert(image_parts(Seq::<PartView>::empty()) =~= Seq::<(int, Seq<char>)>::empty());
        assert(numbered(Seq::<Seq<char>>::empty()) =~= Seq::<(int, Seq<char>)>::empty());
    } else {
        let (a, line, k) = scan(content, images, i - 1);
        lemma_scan_index_monotone(content, images, i - 1, i);
        lemma_scan_images(content, images, i - 1);
        if content[i - 1] == '\n' {
            lemma_take_line_images(a, line, images[k]);
            assert(images.take(k + 1).drop_last() =~= images.take(k));
            assert(images.take(k + 1).last() == images[k]);
            let alts = lone_images(images.take(k));
            match images[k] {
                Some(alt) => {
                    assert(lone_images(images.take(k + 1)) == alts.push(alt));
                    assert(numbered(alts).push((alts.len() as int, alt)) =~= numbered(alts.push(alt)));
                },
                None => {
                    assert(lone_images(images.take(k + 1)) == alts);
                },
            }
            assert(scan(content, images, i) == (take_line(a, line, images[k]), Seq::<char>::empty(), k + 1));
        } else {
            assert(scan(content, images, i) == (a, line.push(content[i - 1]), k));
        }
    }
}

/// The body numbers its image labels from zero in the order the lone images
/// stand in the source, one label for each, each carrying its line's alt
/// text; so a click on a label and the viewer agree on which image it is.
pub proof fn lemma_images_numbered_in_order(content: Seq<char>, images: Seq<Option<Seq<char>>>)
    requires
        images.len() == line_count(content),
    ensures
        image_parts(spec_body_parts(content, images)) == numbered(lone_images(images)),
{
    let n = content.len() as int;
    lemma_scan_index_independent(content, images, Seq::empty(), n);
    let (a, line, k) = scan(content, images, n);
    lemma_scan_index_monotone(content, images, 0, n);
    assert(line_count(content) == scan(content, Seq::<Option<Seq<char>>>::empty(), n).2 + 1);
    assert(k + 1 == images.len());
    lemma_scan_images(content, images, n);
    lemma_take_line_images(a, line, images[k]);
    assert(images.take(k + 1) =~= images);
    assert(images.take(k + 1).drop_last() =~= images.take(k));
    let last = take_line(a, line, images[k]);
    let t = images.take(k + 1);
    assert(t.len() == k + 1);
    assert(t.last() == images[k]);
    assert(t.drop_last() == images.take(k));
    assert(lone_images(t) == (match t.last() {
        Some(alt) => lone_images(t.drop_last()).push(alt),
        None => lone_images(t.drop_last()),
    }));
    let alts = lone_images(images.take(k));
    match images[k] {
        Some(alt) => {
            assert(lone_images(images.take(k + 1)) == alts.push(alt));
            assert(numbered(alts).push((alts.len() as int, alt)) =~= numbered(alts.push(alt)));
        },
        None => {
            assert(lone_images(images.take(k + 1)) == alts);
        },
    }
    assert(image_parts(last.parts) == numbered(lone_images(images)));
    if last.buffer.len() > 0 {
        lemma_push_other(last.parts, PartView::Chunk(last.buffer));
        assert(spec_body_parts(content, images) == last.parts.push(PartView::Chunk(last.buffer)));
    } else {
        assert(spec_body_parts(content, images) == last.parts);
    }
}


/// The characters of `s` that are not whitespace, in order.
pub open spec fn visible(s: Seq<char>) -> Seq<char>
    decreases s.len(),
{
    if s.len() == 0 {
        seq![]
    } else if whitespace(s.last()) {
        visible(s.drop_last())
    } else {
        visible(s.drop_last()).push(s.last())
    }
}

/// The visible characters of the chunks among `parts`, in order.
pub open spec fn chunk_visible(parts: Seq<PartView>) -> Seq<char>
    decreases parts.len(),
{
    if parts.len() == 0 {
        seq![]
    } else {
        let before = chunk_visible(parts.drop_last());
        match parts.last() {
            PartView::Chunk(text) => before + visible(text),
            _ => before,
        }
    }
}

/// The visible characters of the first `i` characters of `content` that lie
/// on lines that are not lone images (`images[k]` is `None` for line `k`),
/// in order, with the number of the line being read.
pub open spec fn text_lines_visible(content: Seq<char>, images: Seq<Option<Seq<char>>>, i: int) -> (Seq<char>, int)
    decreases i,
{
    if i <= 0 {
        (seq![], 0)
    } else {
        let (text, k) = text_lines_visible(content, images, i - 1);
        let c = content[i - 1];
        if c == '\n' {
            (text, k + 1)
        } else if images[k] is None && !whitespace(c) {
            (text.push(c), k)
        } else {
            (text, k)
        }
    }
}

proof fn lemma_visible_concat(a: Seq<char>, b: Seq<char>)
    ensures
        visible(a + b) == visible(a) + visible(b),
    decreases b.len(),
{
    if b.len() == 0 {
        assert(a + b =~= a);
        assert(visible(a) + visible(b) =~= visible(a));
    } else {
        lemma_visible_concat(a, b.drop_last());
        assert((a + b).drop_last() =~= a + b.drop_last());
        assert((a + b).last() == b.last());
        if whitespace(b.last()) {
        } else {
            assert(visible(a) + visible(b.drop_last()).push(b.last()) =~= (visible(a) + visible(b.drop_last())).push(
                b.last(),
            ));
        }
    }
}

proof fn lemma_visible_blank(s: Seq<char>)
    requires
        is_blank(s),
    ensures
        visible(s) == Seq::<char>::empty(),
    decreases s.len(),
{
    if s.len() > 0 {
        assert(whitespace(s[s.len() - 1]));
        assert(is_blank(s.drop_last()));
        lemma_visible_blank(s.drop_last());
    }
}

proof fn lemma_visible_newline()
    ensures
        visible(seq!['\n']) == Seq::<char>::empty(),
{
    let s = seq!['\n'];
    assert(s.len() == 1);
    assert(s.last() == '\n');
    assert(whitespace('\n'));
    assert(s.drop_last() =~= Seq::<char>::empty());
    assert(visible(s.drop_last()) =~= Seq::<char>::empty());
}

proof fn lemma_chunk_visible_push(parts: Seq<PartView>, p: PartView)
    ensures
        chunk_visible(parts.push(p)) == match p {
            PartView::Chunk(text) => chunk_visible(parts) + visible(text),
            _ => chunk_visible(parts),
        },
{
    assert(parts.push(p).drop_last() =~= parts);
}

/// Taking a line keeps every visible character: those of the chunks so far
/// and the buffer, plus the line's own unless it is a lone image.
proof fn lemma_take_line_keeps_text(a: Assembly, line: Seq<char>, image: Option<Seq<char>>)
    ensures
        chunk_visible(take_line(a, line, image).parts) + visible(take_line(a, line, image).buffer)
            == chunk_visible(a.parts) + visible(a.buffer) + (if image is None {
            visible(line)
        } else {
            Seq::<char>::empty()
        }),
{
    let t = take_line(a, line, image);
    match image {
        None => {
            if a.after_image && a.buffer.len() == 0 && is_blank(line) {
                lemma_chunk_visible_push(a.parts, PartView::Blank);
                lemma_visible_blank(line);
                assert(visible(a.buffer) =~= Seq::<char>::empty());
                assert(chunk_visible(a.parts) + visible(a.buffer) + visible(line) =~= chunk_visible(a.parts)
                    + visible(a.buffer));
            } else if a.buffer.len() == 0 {
                assert(visible(a.buffer) =~= Seq::<char>::empty());
                assert(chunk_visible(a.parts) + visible(a.buffer) + visible(line) =~= chunk_visible(a.parts)
                    + visible(line));
            } else {
                lemma_visible_concat(a.buffer + seq!['\n'], line);
                lemma_visible_concat(a.buffer, seq!['\n']);
                lemma_visible_newline();
                assert(visible(a.buffer) + Seq::<char>::empty() =~= visible(a.buffer));
                assert(chunk_visible(a.parts) + (visible(a.buffer) + visible(line)) =~= chunk_visible(a.parts)
                    + visible(a.buffer) + visible(line));
            }
        },
        Some(alt) => {
            let flushed = if a.buffer.len() > 0 {
                let text = if a.buffer.last() == '\n' { a.buffer.push('\n') } else { a.buffer };
                lemma_chunk_visible_push(a.parts, PartView::Chunk(text));
                if a.buffer.last() == '\n' {
                    lemma_visible_concat(a.buffer, seq!['\n']);
                    lemma_visible_newline();
                    assert(a.buffer + seq!['\n'] =~= a.buffer.push('\n'));
                    assert(visible(a.buffer) + Seq::<char>::empty() =~= visible(a.buffer));
                }
                a.parts.push(PartView::Chunk(text))
            } else {
                assert(visible(a.buffer) =~= Seq::<char>::empty());
                assert(chunk_visible(a.parts) + visible(a.buffer) =~= chunk_visible(a.parts));
                a.parts
            };
            lemma_chunk_visible_push(flushed, PartView::Image(a.next_image, alt));
            assert(t.parts == flushed.push(PartView::Image(a.next_image, alt)));
            assert(visible(t.buffer) =~= Seq::<char>::empty());
            assert(chunk_visible(t.parts) + visible(t.buffer) =~= chunk_visible(t.parts));
            assert(chunk_visible(a.parts) + visible(a.buffer) + Seq::<char>::empty() =~= chunk_visible(a.parts)
                + visible(a.buffer));
        },
    }
}

proof fn lemma_scan_keeps_text(content: Seq<char>, images: Seq<Option<Seq<char>>>, i: int)
    requires
        0 <= i <= content.len(),
        scan(content, images, i).2 < images.len(),
    ensures
        text_lines_visible(content, images, i).1 == scan(content, images, i).2,
        chunk_visible(scan(content, images, i).0.parts) + visible(scan(content, images, i).0.buffer) + (if images[scan(
            content,
            images,
            i,
        ).2] is None {
            visible(scan(content, images, i).1)
        } else {
            Seq::<char>::empty()
        }) == text_lines_visible(content, images, i).0,
    decreases i,
{
    if i == 0 {
        let a = start_assembly();
        lemma_chunk_visible_push(Seq::<PartView>::empty(), PartView::Blank);
        assert(Seq::<PartView>::empty().push(PartView::Blank) =~= a.parts);
        assert(chunk_visible(a.parts) + visible(a.buffer) + visible(Seq::<char>::empty()) =~= Seq::<char>::empty());
        assert(chunk_visible(a.parts) + visible(a.buffer) + Seq::<char>::empty() =~= Seq::<char>::empty());
    } else {
        let (a, line, k) = scan(content, images, i - 1);
        lemma_scan_index_monotone(content, images, i - 1, i);
        lemma_scan_keeps_text(content, images, i - 1);
        let before = chunk_visible(a.parts) + visible(a.buffer);
        if content[i - 1] == '\n' {
            lemma_take_line_keeps_text(a, line, images[k]);
            let t = take_line(a, line, images[k]);
            assert(scan(content, images, i) == (t, Seq::<char>::empty(), k + 1));
            assert(visible(Seq::<char>::empty()) =~= Seq::<char>::empty());
            assert(chunk_visible(t.parts) + visible(t.buffer) + Seq::<char>::empty() =~= chunk_visible(t.parts)
                + visible(t.buffer));
        } else {
            let c = content[i - 1];
            assert(scan(content, images, i) == (a, line.push(c), k));
            assert(line.push(c).drop_last() =~= line);
            if images[k] is None {
                if whitespace(c) {
                    assert(visible(line.push(c)) == visible(line));
                } else {
                    assert(visible(line.push(c)) == visible(line).push(c));
                    assert(before + visible(line).push(c) =~= (before + visible(line)).push(c));
                }
            }
        }
    }
}

/// No text is lost: every visible (non-whitespace) character of the source
/// that is not on a lone-image line appears, in order, in the body's chunks,
/// and the chunks hold no other visible characters.
pub proof fn lemma_body_keeps_all_text(content: Seq<char>, images: Seq<Option<Seq<char>>>)
    requires
        images.len() == line_count(content),
    ensures
        chunk_visible(spec_body_parts(content, images)) == text_lines_visible(content, images, content.len() as int).0,
{
    let n = content.len() as int;
    lemma_scan_index_independent(content, images, Seq::empty(), n);
    let (a, line, k) = scan(content, images, n);
    lemma_scan_index_monotone(content, images, 0, n);
    assert(k + 1 == images.len());
    lemma_scan_keeps_text(content, images, n);
    lemma_take_line_keeps_text(a, line, images[k]);
    let last = take_line(a, line, images[k]);
    assert(chunk_visible(a.parts) + visible(a.buffer) + (if images[k] is None {
        visible(line)
    } else {
        Seq::<char>::empty()
    }) == text_lines_visible(content, images, n).0);
    if last.buffer.len() > 0 {
        lemma_chunk_visible_push(last.parts, PartView::Chunk(last.buffer));
        assert(spec_body_parts(content, images) == last.parts.push(PartView::Chunk(last.buffer)));
    } else {
        assert(visible(last.buffer) =~= Seq::<char>::empty());
        assert(chunk_visible(last.parts) + visible(last.buffer) =~= chunk_visible(last.parts));
        assert(spec_body_parts(content, images) == last.parts);
    }
}

} // verus!
