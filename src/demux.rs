//! Extraction of JPEG images from a continuous byte stream in which each
//! image runs from a start-of-image marker to an end-of-image marker.
use vstd::prelude::*;
use vstd::slice::{slice_subrange, slice_to_vec};
use crate::settings::Settings;

verus! {

/// The start-of-image marker.
pub const SOI: [u8; 2] = [255, 216];

/// The end-of-image marker.
pub const EOI: [u8; 2] = [255, 217];

pub open spec fn soi() -> Seq<u8> {
    seq![255u8, 216u8]
}

pub open spec fn eoi() -> Seq<u8> {
    seq![255u8, 217u8]
}

/// `pat` stands in `text` from index `i` on.
pub open spec fn occurs_at(text: Seq<u8>, pat: Seq<u8>, i: int) -> bool {
    0 <= i && i + pat.len() <= text.len() && text.subrange(i, i + pat.len()) == pat
}

/// Relies on twoway::find_bytes: the index of the first occurrence of
/// `pattern` in `text`, or `None` where it does not occur.
#[verifier::external_body]
fn find_bytes(text: &[u8], pattern: &[u8]) -> (r: Option<usize>)
    ensures
        r matches Some(i) ==> occurs_at(text@, pattern@, i as int) && forall|j: int|
            0 <= j < i ==> !occurs_at(text@, pattern@, j),
        r is None ==> forall|j: int| !occurs_at(text@, pattern@, j),
{
    twoway::find_bytes(text, pattern)
}

/// The first complete image of `buf` runs from `s` to `e + 2`: `s` is the
/// first start marker, and `e` the first end marker after it.
pub open spec fn is_first_image(buf: Seq<u8>, s: int, e: int) -> bool {
    &&& occurs_at(buf, soi(), s)
    &&& forall|j: int| 0 <= j < s ==> !occurs_at(buf, soi(), j)
    &&& s + 2 <= e
    &&& occurs_at(buf, eoi(), e)
    &&& forall|j: int| s + 2 <= j < e ==> !occurs_at(buf, eoi(), j)
}

/// The images that `buf` holds, in order, and the bytes that are kept for
/// later: everything after the last complete image.
#[verifier::opaque]
pub open spec fn extract(buf: Seq<u8>) -> (Seq<Seq<u8>>, Seq<u8>)
    decreases buf.len(),
{
    if exists|s: int, e: int| is_first_image(buf, s, e) {
        let (s, e) = choose|s: int, e: int| is_first_image(buf, s, e);
        let (images, rest) = extract(buf.subrange(e + 2, buf.len() as int));
        (seq![buf.subrange(s, e + 2)] + images, rest)
    } else {
        (Seq::empty(), buf)
    }
}

/// A buffer that holds a complete image yields it first, then what its tail
/// yields.
pub proof fn lemma_extract_image(buf: Seq<u8>, s: int, e: int)
    requires
        is_first_image(buf, s, e),
    ensures
        extract(buf) == (seq![buf.subrange(s, e + 2)] + extract(
            buf.subrange(e + 2, buf.len() as int),
        ).0, extract(buf.subrange(e + 2, buf.len() as int)).1),
{
    reveal(extract);
    let (cs, ce) = choose|cs: int, ce: int| is_first_image(buf, cs, ce);
    lemma_first_image_unique(buf, s, e, cs, ce);
}

/// A buffer without a complete image yields nothing and is held whole.
pub proof fn lemma_extract_none(buf: Seq<u8>)
    requires
        !exists|s: int, e: int| is_first_image(buf, s, e),
    ensures
        extract(buf) == (Seq::<Seq<u8>>::empty(), buf),
{
    reveal(extract);
}

/// The first image of a buffer is unique.
pub proof fn lemma_first_image_unique(buf: Seq<u8>, s1: int, e1: int, s2: int, e2: int)
    requires
        is_first_image(buf, s1, e1),
        is_first_image(buf, s2, e2),
    ensures
        s1 == s2 && e1 == e2,
{
    if s1 < s2 {
        assert(!occurs_at(buf, soi(), s1));
    } else if s2 < s1 {
        assert(!occurs_at(buf, soi(), s2));
    }
    if e1 < e2 {
        assert(!occurs_at(buf, eoi(), e1));
    } else if e2 < e1 {
        assert(!occurs_at(buf, eoi(), e2));
    }
}

/// Occurrences in a tail of `buf` are occurrences in `buf`, shifted.
proof fn lemma_occurs_in_tail(buf: Seq<u8>, a: int, pat: Seq<u8>, k: int)
    requires
        0 <= a <= buf.len(),
    ensures
        occurs_at(buf.subrange(a, buf.len() as int), pat, k) <==> (0 <= k && occurs_at(
            buf,
            pat,
            a + k,
        )),
{
    let t = buf.subrange(a, buf.len() as int);
    if 0 <= k && k + pat.len() <= t.len() {
        assert(t.subrange(k, k + pat.len()) =~= buf.subrange(a + k, a + k + pat.len()));
    }
}

/// The views of a sequence of byte vectors.
pub open spec fn views(v: Seq<Vec<u8>>) -> Seq<Seq<u8>> {
    v.map_values(|x: Vec<u8>| x@)
}

/// Where the first complete image of `buf` begins and where its end marker
/// stands, if `buf` holds a complete image.
fn find_first_image(buf: &[u8]) -> (r: Option<(usize, usize)>)
    ensures
        r matches Some((s, e)) ==> is_first_image(buf@, s as int, e as int),
        r is None ==> !exists|s: int, e: int| is_first_image(buf@, s, e),
{
    assert(SOI@ =~= soi());
    assert(EOI@ =~= eoi());
    let s = match find_bytes(buf, &SOI) {
        Some(s) => s,
        None => {
            return None;
        },
    };
    let n = buf.len();
    assert(s + 2 <= n);
    let after = slice_subrange(buf, s + 2, n);
    assert(after@ =~= buf@.subrange(s + 2, buf@.len() as int));
    match find_bytes(after, &EOI) {
        Some(k) => {
            let e: usize = s + 2 + k;
            proof {
                lemma_occurs_in_tail(buf@, s + 2, eoi(), k as int);
                assert forall|j: int| s + 2 <= j < e implies !occurs_at(buf@, eoi(), j) by {
                    lemma_occurs_in_tail(buf@, s + 2, eoi(), j - (s + 2));
                }
            }
            Some((s, e))
        },
        None => {
            proof {
                assert forall|s2: int, e2: int| !is_first_image(buf@, s2, e2) by {
                    if is_first_image(buf@, s2, e2) {
                        if s2 < s {
                            assert(!occurs_at(buf@, soi(), s2));
                        }
                        if s < s2 {
                            assert(!occurs_at(buf@, soi(), s as int));
                        }
                        lemma_occurs_in_tail(buf@, s + 2, eoi(), e2 - (s + 2));
                    }
                }
            }
            None
        },
    }
}

/// A complete image as a camera sends it: it begins with the start marker,
/// ends with the end marker, and holds no end marker in between.
pub open spec fn well_formed_image(img: Seq<u8>) -> bool {
    &&& img.len() >= 4
    &&& occurs_at(img, soi(), 0)
    &&& occurs_at(img, eoi(), img.len() - 2)
    &&& forall|j: int| 2 <= j < img.len() - 2 ==> !occurs_at(img, eoi(), j)
}

/// What a demultiplexer holding `held` returns when the `chunks` are
/// pushed into it one after another: the images of all the pushes, in
/// order, and the bytes it holds at the end.
pub open spec fn feed(held: Seq<u8>, chunks: Seq<Seq<u8>>) -> (Seq<Seq<u8>>, Seq<u8>)
    decreases chunks.len(),
{
    if chunks.len() == 0 {
        (Seq::empty(), held)
    } else {
        let (first, kept) = extract(held + chunks[0]);
        let (more, last) = feed(kept, chunks.drop_first());
        (first + more, last)
    }
}

/// A prefix of a stream of well-formed images yields the images that it
/// holds whole, and holds back a proper prefix of the next one.
proof fn lemma_extract_prefix(images: Seq<Seq<u8>>, p: Seq<u8>, r: Seq<u8>) -> (j: int)
    requires
        forall|i: int| 0 <= i < images.len() ==> well_formed_image(#[trigger] images[i]),
        p + r == images.flatten(),
    ensures
        0 <= j <= images.len(),
        extract(p).0 == images.take(j),
        extract(p).1 + r == images.skip(j).flatten(),
        j < images.len() ==> extract(p).1.len() < images[j].len(),
    decreases images.len(),
{
    if images.len() == 0 {
        assert(p =~= Seq::<u8>::empty());
        assert forall|s: int, e: int| !is_first_image(p, s, e) by {}
        lemma_extract_none(p);
        assert(images.take(0) =~= images);
        assert(images.skip(0) =~= images);
        0
    } else {
        let img = images[0];
        let l = img.len() as int;
        let tail = images.drop_first();
        assert(images.flatten() == img + tail.flatten());
        assert(well_formed_image(img));
        if p.len() < l {
            assert forall|s: int, e: int| !is_first_image(p, s, e) by {
                if is_first_image(p, s, e) {
                    assert(p.subrange(e, e + 2) =~= img.subrange(e, e + 2)) by {
                        assert forall|i: int| e <= i < e + 2 implies p[i] == img[i] by {
                            assert((p + r)[i] == (img + tail.flatten())[i]);
                        }
                    }
                    assert(occurs_at(img, eoi(), e));
                }
            }
            lemma_extract_none(p);
            assert(images.take(0) =~= Seq::<Seq<u8>>::empty());
            assert(images.skip(0) =~= images);
            assert(p + r == images.flatten());
            0
        } else {
            assert(p.subrange(0, l) =~= img) by {
                assert forall|i: int| 0 <= i < l implies p[i] == img[i] by {
                    assert((p + r)[i] == (img + tail.flatten())[i]);
                }
            }
            let later_bytes = p.subrange(l, p.len() as int);
            assert(later_bytes + r =~= tail.flatten()) by {
                assert((p + r).len() == (img + tail.flatten()).len());
                assert forall|i: int| 0 <= i < tail.flatten().len() implies (later_bytes + r)[i]
                    == tail.flatten()[i] by {
                    assert((p + r)[l + i] == (img + tail.flatten())[l + i]);
                }
            }
            assert(is_first_image(p, 0, l - 2)) by {
                assert(p.subrange(0, 2) =~= img.subrange(0, 2));
                assert(p.subrange(l - 2, l) =~= img.subrange(l - 2, l));
                assert forall|j: int| 2 <= j < l - 2 implies !occurs_at(p, eoi(), j) by {
                    assert(!occurs_at(img, eoi(), j));
                    assert(p.subrange(j, j + 2) =~= img.subrange(j, j + 2));
                }
            }
            lemma_extract_image(p, 0, l - 2);
            assert forall|i: int| 0 <= i < tail.len() implies well_formed_image(
                #[trigger] tail[i],
            ) by {
                assert(tail[i] == images[i + 1]);
            }
            let j2 = lemma_extract_prefix(tail, later_bytes, r);
            assert(images.take(j2 + 1) =~= seq![img] + tail.take(j2));
            assert(images.skip(j2 + 1) =~= tail.skip(j2));
            j2 + 1
        }
    }
}

/// Demultiplexing recovers the images: when a stream of well-formed images,
/// one after another, is cut into chunks of any sizes (a chunk may split a
/// marker, or be empty) and the chunks are pushed in order into an empty
/// demultiplexer, exactly those images come out, in order and byte for
/// byte, and nothing is left held.
pub proof fn lemma_demux_recovers_images(images: Seq<Seq<u8>>, chunks: Seq<Seq<u8>>)
    requires
        forall|i: int| 0 <= i < images.len() ==> well_formed_image(#[trigger] images[i]),
        chunks.flatten() == images.flatten(),
    ensures
        feed(Seq::empty(), chunks) == (images, Seq::<u8>::empty()),
{
    assert(Seq::<u8>::empty() + chunks.flatten() =~= chunks.flatten());
    lemma_feed_from_partial(images, Seq::empty(), chunks);
}

/// The induction behind `lemma_demux_recovers_images`: the demultiplexer
/// holds a proper prefix of the next image.
proof fn lemma_feed_from_partial(images: Seq<Seq<u8>>, held: Seq<u8>, chunks: Seq<Seq<u8>>)
    requires
        forall|i: int| 0 <= i < images.len() ==> well_formed_image(#[trigger] images[i]),
        held + chunks.flatten() == images.flatten(),
        images.len() > 0 ==> held.len() < images[0].len(),
    ensures
        feed(held, chunks) == (images, Seq::<u8>::empty()),
    decreases chunks.len(),
{
    if chunks.len() == 0 {
        assert(held + chunks.flatten() =~= held);
        if images.len() > 0 {
            images.lemma_flatten_length_ge_single_element_length(0);
        }
        assert(images =~= Seq::<Seq<u8>>::empty());
        assert(held =~= Seq::<u8>::empty());
    } else {
        let rest = chunks.drop_first();
        assert(chunks.flatten() == chunks[0] + rest.flatten());
        let p = held + chunks[0];
        assert(p + rest.flatten() =~= held + chunks.flatten());
        let j = lemma_extract_prefix(images, p, rest.flatten());
        let later = images.skip(j);
        assert forall|i: int| 0 <= i < later.len() implies well_formed_image(
            #[trigger] later[i],
        ) by {
            assert(later[i] == images[i + j]);
        }
        lemma_feed_from_partial(later, extract(p).1, rest);
        assert(images.take(j) + later =~= images);
    }
}

/// Splits the images off a byte stream that arrives in pieces of any size.
pub struct MarkerDemuxer {
    buffer: Vec<u8>,
}

impl View for MarkerDemuxer {
    type V = Seq<u8>;

    /// The bytes held back until the image they begin is complete.
    closed spec fn view(&self) -> Seq<u8> {
        self.buffer@
    }
}

impl MarkerDemuxer {
    /// A demultiplexer that holds no bytes.
    pub fn new() -> (r: MarkerDemuxer)
        ensures
            r@ == Seq::<u8>::empty(),
    {
        MarkerDemuxer { buffer: Vec::new() }
    }

    /// Appends `chunk` to the bytes held and returns, in order, every image
    /// that is now complete; what follows the last of them is held.
    pub fn push(&mut self, chunk: &[u8]) -> (images: Vec<Vec<u8>>)
        ensures
            (views(images@), final(self)@) == extract(old(self)@ + chunk@),
    {
        let mut k: usize = 0;
        while k < chunk.len()
            invariant
                0 <= k <= chunk@.len(),
                self.buffer@ == old(self)@ + chunk@.subrange(0, k as int),
            decreases chunk@.len() - k,
        {
            self.buffer.push(chunk[k]);
            k = k + 1;
            assert(self.buffer@ =~= old(self)@ + chunk@.subrange(0, k as int));
        }
        assert(chunk@.subrange(0, chunk@.len() as int) =~= chunk@);
        let ghost all = self.buffer@;
        let mut images: Vec<Vec<u8>> = Vec::new();
        let mut pos: usize = 0;
        let len = self.buffer.len();
        assert(all.subrange(0, len as int) =~= all);
        assert(views(images@) + extract(all).0 =~= extract(all).0);
        loop
            invariant
                self.buffer@ == all,
                len == all.len(),
                0 <= pos <= len,
                extract(all) == (views(images@) + extract(
                    all.subrange(pos as int, len as int),
                ).0, extract(all.subrange(pos as int, len as int)).1),
            ensures
                self.buffer@ == all,
                len == all.len(),
                0 <= pos <= len,
                extract(all) == (views(images@), all.subrange(pos as int, len as int)),
            decreases len - pos,
        {
            let ghost rest = all.subrange(pos as int, len as int);
            let tail = slice_subrange(self.buffer.as_slice(), pos, len);
            assert(tail@ == rest);
            let (s, e) = match find_first_image(tail) {
                Some(found) => found,
                None => {
                    proof {
                        lemma_extract_none(rest);
                        assert(views(images@) + Seq::<Seq<u8>>::empty() =~= views(images@));
                    }
                    break ;
                },
            };
            proof {
                lemma_extract_image(rest, s as int, e as int);
            }
            let image = slice_to_vec(slice_subrange(tail, s, e + 2));
            let ghost old_images = views(images@);
            images.push(image);
            proof {
                assert(views(images@) =~= old_images.push(rest.subrange(s as int, e + 2)));
                assert(rest.subrange(e + 2, rest.len() as int) =~= all.subrange(
                    pos + e + 2,
                    len as int,
                ));
                assert(views(images@) + extract(all.subrange(pos + e + 2, len as int)).0
                    =~= old_images + extract(rest).0);
            }
            pos = pos + e + 2;
        }
        self.buffer = self.buffer.split_off(pos);
        images
    }
}

/// The receiving end of the marker-delimited video transport: the settings
/// it connects with, and the demultiplexer that its bytes go through.
pub struct VideoStream {
    settings: Settings,
    demuxer: MarkerDemuxer,
}

impl View for VideoStream {
    type V = Seq<u8>;

    /// The bytes held back until the image they begin is complete.
    closed spec fn view(&self) -> Seq<u8> {
        self.demuxer@
    }
}

impl VideoStream {
    /// A stream with these settings that has received nothing yet.
    pub fn new(settings: Settings) -> (r: VideoStream)
        ensures
            r@ == Seq::<u8>::empty(),
    {
        VideoStream { settings, demuxer: MarkerDemuxer::new() }
    }

    /// The settings the stream connects with.
    pub fn settings(&self) -> &Settings {
        &self.settings
    }

    /// Takes the bytes of one read and returns the images that they
    /// complete, as `MarkerDemuxer::push` does.
    pub fn receive(&mut self, chunk: &[u8]) -> (images: Vec<Vec<u8>>)
        ensures
            (views(images@), final(self)@) == extract(old(self)@ + chunk@),
    {
        self.demuxer.push(chunk)
    }
}

} // verus!
