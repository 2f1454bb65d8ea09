use vstd::prelude::*;

use crate::strutil::{is_space, is_space_spec, trim_spec, trim_str};

verus! {

/// How a text is cut into chunks, and how large the chunks may grow.
#[derive(Debug, Clone)]
pub struct ChunkingOptions {
    /// The size, in characters, a chunk may not outgrow — except for a
    /// single piece that alone is already larger.
    pub chunk_size: usize,
    /// How much of the end of a chunk is repeated at the start of the next.
    pub overlap: usize,
    /// The boundary rule chunks are cut by.
    pub strategy: ChunkingStrategy,
}

/// The boundary rule a text is cut by: fixed character counts, sentence
/// boundaries, or paragraph boundaries.
#[derive(Debug, Clone)]
pub enum ChunkingStrategy {
    FixedSize,
    Sentence,
    Paragraph,
}

impl Default for ChunkingOptions {
    /// Chunks of up to a thousand characters, cut by size, with an overlap
    /// of a hundred.
    fn default() -> (r: Self)
        ensures
            r.chunk_size == 1000,
            r.overlap == 100,
            r.strategy is FixedSize,
    {
        ChunkingOptions { chunk_size: 1000, overlap: 100, strategy: ChunkingStrategy::FixedSize }
    }
}

#[verifier::external_type_specification]
#[verifier::external_body]
pub struct ExRegex(regex::Regex);

/// What splitting a text at the fixed sentence boundary pattern yields: the
/// pieces of the text around the matches, in order. A function of the text
/// alone, since the pattern is fixed.
pub uninterp spec fn sentence_split_of(text: Seq<char>) -> Seq<Seq<char>>;

/// What splitting a text at the fixed paragraph boundary pattern yields: the
/// pieces of the text around the matches, in order. A function of the text
/// alone, since the pattern is fixed.
pub uninterp spec fn paragraph_split_of(text: Seq<char>) -> Seq<Seq<char>>;

/// The pieces a text is split into under the given boundary rule.
pub open spec fn split_of(by_paragraph: bool, text: Seq<char>) -> Seq<Seq<char>> {
    if by_paragraph {
        paragraph_split_of(text)
    } else {
        sentence_split_of(text)
    }
}

/// Cuts texts into chunks at sentence or paragraph boundaries, or by size.
pub struct TextChunker {
    sentence_regex: regex::Regex,
    paragraph_regex: regex::Regex,
}

impl TextChunker {
    /// Relies on regex::Regex::new: compiles the fixed sentence boundary
    /// pattern `[.!?]+[\s]+` and the fixed paragraph boundary pattern
    /// `\n\s*\n`. Both patterns are valid, so neither compilation fails.
    #[verifier::external_body]
    pub fn new() -> (r: TextChunker) {
        TextChunker {
            sentence_regex: regex::Regex::new(r"[.!?]+[\s]+").unwrap(),
            paragraph_regex: regex::Regex::new(r"\n\s*\n").unwrap(),
        }
    }

    /// Relies on regex::Regex::split: the pieces of the haystack around the
    /// matches of the fixed sentence boundary pattern, in order; a function
    /// of the text alone, named `sentence_split_of`.
    #[verifier::external_body]
    fn split_sentences(&self, text: &str) -> (r: Vec<String>)
        ensures
            r.deep_view() == sentence_split_of(text@),
    {
        self.sentence_regex.split(text).map(|p| p.to_string()).collect()
    }

    /// Relies on regex::Regex::split: the pieces of the haystack around the
    /// matches of the fixed paragraph boundary pattern, in order; a function
    /// of the text alone, named `paragraph_split_of`.
    #[verifier::external_body]
    fn split_paragraphs(&self, text: &str) -> (r: Vec<String>)
        ensures
            r.deep_view() == paragraph_split_of(text@),
    {
        self.paragraph_regex.split(text).map(|p| p.to_string()).collect()
    }

    /// The pieces of the text under the given boundary rule.
    fn split_pieces(&self, by_paragraph: bool, text: &str) -> (r: Vec<String>)
        ensures
            r.deep_view() == split_of(by_paragraph, text@),
    {
        if by_paragraph {
            self.split_paragraphs(text)
        } else {
            self.split_sentences(text)
        }
    }
}

/// The pieces, each without leading and trailing blanks, with the ones that
/// held only blanks dropped.
pub open spec fn cleaned(pieces: Seq<Seq<char>>) -> Seq<Seq<char>>
    decreases pieces.len(),
{
    if pieces.len() <= 0 {
        Seq::empty()
    } else {
        let rest = cleaned(pieces.drop_last());
        let t = trim_spec(pieces.last());
        if t.len() > 0 {
            rest.push(t)
        } else {
            rest
        }
    }
}

/// One step of packing pieces into chunks: the piece joins the chunk under
/// construction when both, and a separator's width `pad`, fit in `size`
/// together; otherwise the chunk under construction is sealed and the piece
/// starts the next one.
pub open spec fn pack_step(
    chunks: Seq<Seq<char>>,
    cur: Seq<char>,
    piece: Seq<char>,
    size: nat,
    sep: Seq<char>,
    pad: nat,
) -> (Seq<Seq<char>>, Seq<char>) {
    if cur.len() + piece.len() + pad <= size {
        if cur.len() == 0 {
            (chunks, piece)
        } else {
            (chunks, cur + sep + piece)
        }
    } else {
        if cur.len() == 0 {
            (chunks, piece)
        } else {
            (chunks.push(cur), piece)
        }
    }
}

/// Packs the pieces in order: the sealed chunks so far and the chunk still
/// under construction.
pub open spec fn pack_rec(
    pieces: Seq<Seq<char>>,
    size: nat,
    sep: Seq<char>,
    pad: nat,
) -> (Seq<Seq<char>>, Seq<char>)
    decreases pieces.len(),
{
    if pieces.len() <= 0 {
        (Seq::<Seq<char>>::empty(), Seq::<char>::empty())
    } else {
        let st = pack_rec(pieces.drop_last(), size, sep, pad);
        pack_step(st.0, st.1, pieces.last(), size, sep, pad)
    }
}

/// The chunks the pieces pack into, the last chunk sealed too.
pub open spec fn packed(pieces: Seq<Seq<char>>, size: nat, sep: Seq<char>, pad: nat) -> Seq<
    Seq<char>,
> {
    let st = pack_rec(pieces, size, sep, pad);
    if st.1.len() == 0 {
        st.0
    } else {
        st.0.push(st.1)
    }
}

/// The chunks with overlap added: every chunk but the first is preceded by
/// the last cleaned piece of the chunk before it.
pub open spec fn overlapped(
    by_paragraph: bool,
    chunks: Seq<Seq<char>>,
    sep: Seq<char>,
) -> Seq<Seq<char>> {
    Seq::new(
        chunks.len(),
        |i: int|
            if i == 0 {
                chunks[0]
            } else {
                let cand = cleaned(split_of(by_paragraph, chunks[i - 1]));
                if cand.len() > 0 {
                    cand.last() + sep + chunks[i]
                } else {
                    chunks[i]
                }
            },
    )
}

/// The chunks a text is cut into at sentence or paragraph boundaries:
/// cleaned pieces packed up to `size`, with overlap added when asked for
/// and there is more than one chunk.
pub open spec fn grouped_chunks(
    by_paragraph: bool,
    text: Seq<char>,
    size: nat,
    overlap: nat,
) -> Seq<Seq<char>> {
    let sep: Seq<char> = if by_paragraph {
        "\n\n"@
    } else {
        " "@
    };
    let pad: nat = if by_paragraph {
        2
    } else {
        1
    };
    let base = packed(cleaned(split_of(by_paragraph, text)), size, sep, pad);
    if overlap > 0 && base.len() > 1 {
        overlapped(by_paragraph, base, sep)
    } else {
        base
    }
}

/// The chunks a text is cut into at sentence boundaries.
pub open spec fn sentence_chunks(text: Seq<char>, size: nat, overlap: nat) -> Seq<Seq<char>> {
    grouped_chunks(false, text, size, overlap)
}

/// The chunks a text is cut into at paragraph boundaries.
pub open spec fn paragraph_chunks(text: Seq<char>, size: nat, overlap: nat) -> Seq<Seq<char>> {
    grouped_chunks(true, text, size, overlap)
}

/// Walks back from `k` towards `start` until a blank character, the text's
/// end, or `start` itself stops the walk.
pub open spec fn back_walk(text: Seq<char>, start: int, k: int) -> int
    decreases k - start,
        when start <= k
{
    if k > start && k < text.len() && !is_space_spec(text[k]) {
        back_walk(text, start, k - 1)
    } else {
        k
    }
}

/// Where the chunk that begins at `start` ends: at most `size` characters,
/// pulled back to the last blank so a word is not cut, unless no blank is
/// found above `start`.
pub open spec fn size_round_end(text: Seq<char>, start: int, size: nat) -> int {
    let end = if start + size >= text.len() {
        text.len() as int
    } else {
        start + size
    };
    if end < text.len() {
        let w = back_walk(text, start, end);
        if w == start {
            end
        } else {
            w
        }
    } else {
        end
    }
}

/// The walk back stays between `start` and where it began.
proof fn lemma_back_walk_range(text: Seq<char>, start: int, k: int)
    requires
        start <= k,
    ensures
        start <= back_walk(text, start, k) <= k,
    decreases k - start,
{
    if k > start && k < text.len() && !is_space_spec(text[k]) {
        lemma_back_walk_range(text, start, k - 1);
    }
}

/// The chunks of fixed size from `start` on: each round takes a chunk,
/// trims it, keeps it when something is left, and steps forward by the
/// chunk's extent less the overlap. A round that would not advance ends the
/// cutting.
pub open spec fn size_chunks_rec(
    text: Seq<char>,
    start: int,
    size: nat,
    overlap: nat,
) -> Seq<Seq<char>>
    decreases text.len() - start,
        when 0 <= start
    via size_chunks_rec_via
{
    if start >= text.len() {
        Seq::empty()
    } else {
        let ae = size_round_end(text, start, size);
        let piece = trim_spec(text.subrange(start, ae));
        let next: int = if overlap >= ae {
            0
        } else {
            ae - overlap
        };
        let head: Seq<Seq<char>> = if piece.len() > 0 {
            seq![piece]
        } else {
            Seq::empty()
        };
        if next <= start {
            head
        } else {
            head + size_chunks_rec(text, next, size, overlap)
        }
    }
}

#[via_fn]
proof fn size_chunks_rec_via(text: Seq<char>, start: int, size: nat, overlap: nat) {
    if 0 <= start < text.len() {
        let end = if start + size >= text.len() {
            text.len() as int
        } else {
            start + size
        };
        if end < text.len() {
            lemma_back_walk_range(text, start, end);
        }
    }
}

/// The chunks a text is cut into by fixed size.
pub open spec fn size_chunks(text: Seq<char>, size: nat, overlap: nat) -> Seq<Seq<char>> {
    size_chunks_rec(text, 0, size, overlap)
}

/// The chunks a text is cut into under the given options.
pub open spec fn chunk_text_spec(text: Seq<char>, options: ChunkingOptions) -> Seq<Seq<char>> {
    match options.strategy {
        ChunkingStrategy::FixedSize => size_chunks(
            text,
            options.chunk_size as nat,
            options.overlap as nat,
        ),
        ChunkingStrategy::Sentence => sentence_chunks(
            text,
            options.chunk_size as nat,
            options.overlap as nat,
        ),
        ChunkingStrategy::Paragraph => paragraph_chunks(
            text,
            options.chunk_size as nat,
            options.overlap as nat,
        ),
    }
}

/// The last piece that still holds something after trimming decides the
/// last element of the cleaned pieces.
proof fn lemma_cleaned_last(pieces: Seq<Seq<char>>, k: int)
    requires
        0 <= k < pieces.len(),
        trim_spec(pieces[k]).len() > 0,
        forall|j: int| k < j < pieces.len() ==> trim_spec(pieces[j]).len() == 0,
    ensures
        cleaned(pieces).len() > 0,
        cleaned(pieces).last() == trim_spec(pieces[k]),
    decreases pieces.len(),
{
    if k == pieces.len() - 1 {
    } else {
        lemma_cleaned_last(pieces.drop_last(), k);
    }
}

/// When no piece holds anything after trimming, nothing is left of the
/// cleaned pieces.
proof fn lemma_cleaned_none(pieces: Seq<Seq<char>>)
    requires
        forall|j: int| 0 <= j < pieces.len() ==> trim_spec(pieces[j]).len() == 0,
    ensures
        cleaned(pieces).len() == 0,
    decreases pieces.len(),
{
    if pieces.len() > 0 {
        lemma_cleaned_none(pieces.drop_last());
    }
}

impl TextChunker {
    /// Cuts the text into chunks under the given options. Trimming and the
    /// break-point search treat space, tab, line feed and carriage return
    /// as blanks; rarer blank characters count as ordinary text.
    pub fn chunk_text(&self, text: &str, options: &ChunkingOptions) -> (r: Vec<String>)
        ensures
            r.deep_view() == chunk_text_spec(text@, *options),
    {
        match options.strategy {
            ChunkingStrategy::FixedSize => self.chunk_by_size(text, options),
            ChunkingStrategy::Sentence => self.chunk_grouped(false, text, options),
            ChunkingStrategy::Paragraph => self.chunk_grouped(true, text, options),
        }
    }

    /// Cuts the text into chunks of up to `chunk_size` characters, pulled
    /// back to blanks where possible, trimmed, and overlapping by
    /// `overlap` characters.
    fn chunk_by_size(&self, text: &str, options: &ChunkingOptions) -> (r: Vec<String>)
        ensures
            r.deep_view() == size_chunks(
                text@,
                options.chunk_size as nat,
                options.overlap as nat,
            ),
    {
        let ghost size: nat = options.chunk_size as nat;
        let ghost ov: nat = options.overlap as nat;
        let n = text.unicode_len();
        let mut chunks: Vec<String> = Vec::new();
        let mut start: usize = 0;
        while start < n
            invariant
                start <= n,
                n == text@.len(),
                size == options.chunk_size as nat,
                ov == options.overlap as nat,
                size_chunks(text@, size, ov) == chunks.deep_view() + size_chunks_rec(
                    text@,
                    start as int,
                    size,
                    ov,
                ),
            decreases n - start,
        {
            let end = if options.chunk_size >= n - start {
                n
            } else {
                start + options.chunk_size
            };
            let mut ae = end;
            if end < n {
                while ae > start && !is_space(text.get_char(ae))
                    invariant
                        start <= ae <= end,
                        end < n,
                        n == text@.len(),
                        back_walk(text@, start as int, end as int) == back_walk(
                            text@,
                            start as int,
                            ae as int,
                        ),
                    decreases ae,
                {
                    ae = ae - 1;
                }
                if ae == start {
                    ae = end;
                }
            }
            proof {
                assert(ae as int == size_round_end(text@, start as int, size));
            }
            let raw = text.substring_char(start, ae);
            let piece = trim_str(raw);
            let ghost old_dv = chunks.deep_view();
            let keep = !piece.as_str().is_empty();
            if keep {
                chunks.push(piece);
            }
            proof {
                if keep {
                    assert(chunks.deep_view() =~= old_dv.push(
                        trim_spec(text@.subrange(start as int, ae as int)),
                    ));
                } else {
                    assert(chunks.deep_view() =~= old_dv);
                }
            }
            let next = if options.overlap >= ae {
                0
            } else {
                ae - options.overlap
            };
            proof {
                let head: Seq<Seq<char>> = if trim_spec(
                    text@.subrange(start as int, ae as int),
                ).len() > 0 {
                    seq![trim_spec(text@.subrange(start as int, ae as int))]
                } else {
                    Seq::empty()
                };
                if next <= start {
                    assert(size_chunks_rec(text@, start as int, size, ov) == head);
                    assert(old_dv + head =~= chunks.deep_view());
                } else {
                    assert(size_chunks_rec(text@, start as int, size, ov) == head
                        + size_chunks_rec(text@, next as int, size, ov));
                    assert(old_dv + (head + size_chunks_rec(text@, next as int, size, ov))
                        =~= chunks.deep_view() + size_chunks_rec(
                        text@,
                        next as int,
                        size,
                        ov,
                    ));
                }
            }
            if next <= start {
                proof {
                    assert(size_chunks_rec(text@, n as int, size, ov) =~= Seq::<
                        Seq<char>,
                    >::empty());
                    assert(chunks.deep_view() + Seq::<Seq<char>>::empty()
                        =~= chunks.deep_view());
                }
                start = n;
            } else {
                start = next;
            }
        }
        proof {
            assert(size_chunks_rec(text@, start as int, size, ov) =~= Seq::<
                Seq<char>,
            >::empty());
            assert(chunks.deep_view() + Seq::<Seq<char>>::empty() =~= chunks.deep_view());
        }
        chunks
    }

    /// Cuts the text into chunks at sentence or paragraph boundaries:
    /// cleaned pieces are packed up to `chunk_size` characters, and when an
    /// overlap is asked for, each chunk after the first repeats the last
    /// piece of the chunk before it.
    fn chunk_grouped(&self, by_paragraph: bool, text: &str, options: &ChunkingOptions) -> (r:
        Vec<String>)
        ensures
            r.deep_view() == grouped_chunks(
                by_paragraph,
                text@,
                options.chunk_size as nat,
                options.overlap as nat,
            ),
    {
        let ghost size: nat = options.chunk_size as nat;
        let sep: &str = if by_paragraph {
            "\n\n"
        } else {
            " "
        };
        let pad: usize = if by_paragraph {
            2
        } else {
            1
        };
        proof {
            reveal_strlit("\n\n");
            reveal_strlit(" ");
            assert(sep@.len() == pad);
        }
        let raw = self.split_pieces(by_paragraph, text);

        // Trim every piece and drop the ones that held only blanks.
        let mut clean: Vec<String> = Vec::new();
        let mut i: usize = 0;
        while i < raw.len()
            invariant
                i <= raw@.len(),
                clean.deep_view() == cleaned(raw.deep_view().subrange(0, i as int)),
            decreases raw@.len() - i,
        {
            let piece = trim_str(raw[i].as_str());
            let ghost old_dv = clean.deep_view();
            let keep = !piece.as_str().is_empty();
            if keep {
                clean.push(piece);
            }
            proof {
                let rdv = raw.deep_view();
                assert(rdv.subrange(0, i + 1).drop_last() =~= rdv.subrange(0, i as int));
                assert(rdv.subrange(0, i + 1).last() == rdv[i as int]);
                assert(rdv[i as int] == raw@[i as int]@);
                if keep {
                    assert(clean.deep_view() =~= old_dv.push(trim_spec(raw@[i as int]@)));
                } else {
                    assert(clean.deep_view() =~= old_dv);
                }
            }
            i = i + 1;
        }
        proof {
            assert(raw.deep_view().subrange(0, raw@.len() as int) =~= raw.deep_view());
        }

        // Pack the cleaned pieces into chunks of up to `chunk_size`.
        let mut chunks: Vec<String> = Vec::new();
        let mut cur = String::new();
        let mut cur_len: usize = 0;
        let mut i: usize = 0;
        while i < clean.len()
            invariant
                i <= clean@.len(),
                cur_len == cur@.len(),
                sep@.len() == pad,
                size == options.chunk_size as nat,
                (chunks.deep_view(), cur@) == pack_rec(
                    clean.deep_view().subrange(0, i as int),
                    size,
                    sep@,
                    pad as nat,
                ),
            decreases clean@.len() - i,
        {
            let plen = clean[i].as_str().unicode_len();
            let fits = pad <= options.chunk_size && plen <= options.chunk_size - pad
                && cur_len <= options.chunk_size - pad - plen;
            proof {
                assert(fits == (cur@.len() + clean.deep_view()[i as int].len() + pad
                    <= size));
            }
            let ghost old_chunks = chunks.deep_view();
            let ghost old_cur = cur@;
            if fits {
                if cur_len == 0 {
                    cur = clean[i].clone();
                    cur_len = plen;
                } else {
                    cur.append(sep);
                    cur.append(clean[i].as_str());
                    cur_len = cur_len + pad + plen;
                }
            } else {
                if cur_len == 0 {
                    cur = clean[i].clone();
                    cur_len = plen;
                } else {
                    chunks.push(cur);
                    cur = clean[i].clone();
                    cur_len = plen;
                }
            }
            proof {
                let cdv = clean.deep_view();
                assert(cdv.subrange(0, i + 1).drop_last() =~= cdv.subrange(0, i as int));
                assert(cdv.subrange(0, i + 1).last() == cdv[i as int]);
                let stepped = pack_step(
                    old_chunks,
                    old_cur,
                    cdv[i as int],
                    size,
                    sep@,
                    pad as nat,
                );
                assert(chunks.deep_view() =~= stepped.0);
                assert(cur@ == stepped.1);
            }
            i = i + 1;
        }
        proof {
            assert(clean.deep_view().subrange(0, clean@.len() as int) =~= clean.deep_view());
        }
        if cur_len > 0 {
            let ghost old_chunks = chunks.deep_view();
            chunks.push(cur);
            proof {
                assert(chunks.deep_view() =~= old_chunks.push(pack_rec(
                    clean.deep_view(),
                    size,
                    sep@,
                    pad as nat,
                ).1));
            }
        }
        let ghost base = packed(cleaned(split_of(by_paragraph, text@)), size, sep@, pad as nat);
        proof {
            assert(chunks.deep_view() == base);
        }

        // Add the overlap between consecutive chunks.
        if options.overlap > 0 && chunks.len() > 1 {
            let mut out: Vec<String> = Vec::new();
            out.push(chunks[0].clone());
            proof {
                assert(out.deep_view() =~= seq![base[0]]);
            }
            let mut i: usize = 1;
            while i < chunks.len()
                invariant
                    1 <= i <= chunks@.len(),
                    chunks.deep_view() == base,
                    base.len() == chunks@.len(),
                    sep@.len() == pad,
                    out.deep_view().len() == i as int,
                    forall|j: int| 0 <= j < i ==> out.deep_view()[j] == overlapped(
                        by_paragraph,
                        base,
                        sep@,
                    )[j],
                decreases chunks@.len() - i,
            {
                let cand = self.split_pieces(by_paragraph, chunks[i - 1].as_str());
                let mut k: usize = cand.len();
                let mut tail: Option<String> = None;
                while k > 0 && tail.is_none()
                    invariant
                        k <= cand@.len(),
                        match tail {
                            Some(t) => k < cand@.len() && t@ == trim_spec(
                                cand.deep_view()[k as int],
                            ) && t@.len() > 0 && forall|j: int|
                                k < j < cand@.len() ==> trim_spec(
                                    cand.deep_view()[j],
                                ).len() == 0,
                            None => forall|j: int|
                                k <= j < cand@.len() ==> trim_spec(
                                    cand.deep_view()[j],
                                ).len() == 0,
                        },
                    decreases k,
                {
                    let t = trim_str(cand[k - 1].as_str());
                    if !t.as_str().is_empty() {
                        tail = Some(t);
                        k = k - 1;
                    } else {
                        k = k - 1;
                    }
                }
                let ghost old_out = out.deep_view();
                match tail {
                    Some(t) => {
                        proof {
                            lemma_cleaned_last(cand.deep_view(), k as int);
                        }
                        let mut nc = t;
                        nc.append(sep);
                        nc.append(chunks[i].as_str());
                        out.push(nc);
                    }
                    None => {
                        proof {
                            lemma_cleaned_none(cand.deep_view());
                        }
                        out.push(chunks[i].clone());
                    }
                }
                proof {
                    assert(out.deep_view() =~= old_out.push(out.deep_view().last()));
                    assert(out.deep_view().last() == overlapped(by_paragraph, base, sep@)[
                        i as int
                    ]);
                }
                i = i + 1;
            }
            proof {
                assert(out.deep_view() =~= overlapped(by_paragraph, base, sep@));
            }
            out
        } else {
            chunks
        }
    }
}

} // verus!
