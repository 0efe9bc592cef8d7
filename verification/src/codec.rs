use vstd::prelude::*;

verus! {

// The wire schema is a fixed-layout sequence of 32-bit words, each sent
// as four little-endian bytes.  Every numeric field of the replicated
// state is one word.

/// Little-endian bytes of a 32-bit word.
pub open spec fn u32_le(v: u32) -> Seq<u8> {
    seq![
        (v & 0xff) as u8,
        ((v >> 8) & 0xff) as u8,
        ((v >> 16) & 0xff) as u8,
        ((v >> 24) & 0xff) as u8,
    ]
}

/// Little-endian bytes of a signed 32-bit word.
pub open spec fn word_le(v: i32) -> Seq<u8> {
    u32_le(v as u32)
}

/// The 32-bit word assembled from four little-endian bytes.
pub open spec fn u32_of(b0: u8, b1: u8, b2: u8, b3: u8) -> u32 {
    b0 as u32 | (b1 as u32) << 8 | (b2 as u32) << 16 | (b3 as u32) << 24
}

/// The signed word assembled from four little-endian bytes.
pub open spec fn word_of(b0: u8, b1: u8, b2: u8, b3: u8) -> i32 {
    u32_of(b0, b1, b2, b3) as i32
}

/// The byte stream of a sequence of words.
pub open spec fn encode_words(ws: Seq<i32>) -> Seq<u8>
    decreases ws.len(),
{
    if ws.len() == 0 {
        Seq::empty()
    } else {
        word_le(ws[0]) + encode_words(ws.drop_first())
    }
}

/// The words read off a byte stream, four bytes at a time; a trailing
/// fragment shorter than a word is ignored.
pub open spec fn words_of(bs: Seq<u8>) -> Seq<i32>
    decreases bs.len(),
{
    if bs.len() < 4 {
        Seq::empty()
    } else {
        seq![word_of(bs[0], bs[1], bs[2], bs[3])] + words_of(bs.skip(4))
    }
}

/// Reading back the bytes of one word returns the word.
pub proof fn lemma_word_round_trip(v: i32)
    ensures
        word_of(
            (v as u32 & 0xff) as u8,
            ((v as u32 >> 8) & 0xff) as u8,
            ((v as u32 >> 16) & 0xff) as u8,
            ((v as u32 >> 24) & 0xff) as u8,
        ) == v,
{
    let u = v as u32;
    assert(((u & 0xff) as u8) as u32 | ((((u >> 8) & 0xff) as u8) as u32) << 8 | ((((u >> 16)
        & 0xff) as u8) as u32) << 16 | ((((u >> 24) & 0xff) as u8) as u32) << 24 == u)
        by (bit_vector);
    assert((v as u32) as i32 == v) by (bit_vector);
}

/// Encoding distributes over appending one word.
pub proof fn lemma_encode_push(ws: Seq<i32>, v: i32)
    ensures
        encode_words(ws.push(v)) == encode_words(ws) + word_le(v),
    decreases ws.len(),
{
    if ws.len() == 0 {
        assert(ws =~= Seq::<i32>::empty());
        assert(ws.push(v).drop_first() =~= Seq::<i32>::empty());
        assert(encode_words(Seq::<i32>::empty()) == Seq::<u8>::empty());
        assert(ws.push(v).len() == 1);
        assert(ws.push(v)[0] == v);
        assert(encode_words(ws.push(v)) == word_le(v) + encode_words(Seq::<i32>::empty()));
        assert(word_le(v) + Seq::<u8>::empty() =~= word_le(v));
        assert(Seq::<u8>::empty() + word_le(v) =~= word_le(v));
    } else {
        lemma_encode_push(ws.drop_first(), v);
        assert(ws.push(v).drop_first() =~= ws.drop_first().push(v));
        assert(encode_words(ws.push(v)) =~= word_le(ws[0]) + (encode_words(ws.drop_first())
            + word_le(v)));
        assert(word_le(ws[0]) + (encode_words(ws.drop_first()) + word_le(v)) =~= (word_le(ws[0])
            + encode_words(ws.drop_first())) + word_le(v));
    }
}

/// The bytes of a word sequence decode back to the same words.
pub proof fn lemma_words_round_trip(ws: Seq<i32>)
    ensures
        words_of(encode_words(ws)) =~= ws,
    decreases ws.len(),
{
    if ws.len() == 0 {
    } else {
        lemma_words_round_trip(ws.drop_first());
        let bs = encode_words(ws);
        assert(bs =~= word_le(ws[0]) + encode_words(ws.drop_first()));
        assert(bs.len() >= 4);
        assert(bs.skip(4) =~= encode_words(ws.drop_first()));
        let v = ws[0];
        let u = v as u32;
        assert(bs[0] == (u & 0xff) as u8);
        assert(bs[1] == ((u >> 8) & 0xff) as u8);
        assert(bs[2] == ((u >> 16) & 0xff) as u8);
        assert(bs[3] == ((u >> 24) & 0xff) as u8);
        lemma_word_round_trip(v);
        assert(words_of(bs) =~= seq![v] + words_of(bs.skip(4)));
        assert(seq![v] + ws.drop_first() =~= ws);
    }
}

/// The byte stream of a word sequence is four bytes per word.
pub proof fn lemma_encode_len(ws: Seq<i32>)
    ensures
        encode_words(ws).len() == 4 * ws.len(),
    decreases ws.len(),
{
    if ws.len() == 0 {
    } else {
        lemma_encode_len(ws.drop_first());
    }
}

/// Encoding distributes over concatenation.
pub proof fn lemma_encode_split(a: Seq<i32>, b: Seq<i32>)
    ensures
        encode_words(a + b) =~= encode_words(a) + encode_words(b),
    decreases a.len(),
{
    if a.len() == 0 {
        assert(a + b =~= b);
        assert(encode_words(a) == Seq::<u8>::empty());
        assert(Seq::<u8>::empty() + encode_words(b) =~= encode_words(b));
    } else {
        lemma_encode_split(a.drop_first(), b);
        assert((a + b).drop_first() =~= a.drop_first() + b);
        assert((a + b).len() > 0);
        assert((a + b)[0] == a[0]);
        assert(encode_words(a + b) =~= word_le(a[0]) + (encode_words(a.drop_first())
            + encode_words(b)));
        assert(word_le(a[0]) + (encode_words(a.drop_first()) + encode_words(b)) =~= (word_le(a[0])
            + encode_words(a.drop_first())) + encode_words(b));
    }
}

/// Dropping the first word of a stream is dropping its first four bytes.
pub proof fn lemma_words_skip_one(bs: Seq<u8>)
    requires
        bs.len() >= 4,
    ensures
        words_of(bs).skip(1) =~= words_of(bs.skip(4)),
{
    assert(words_of(bs) == seq![word_of(bs[0], bs[1], bs[2], bs[3])] + words_of(bs.skip(4)));
}

/// Encodes a sequence of words as little-endian bytes.
pub fn encode_words_vec(ws: &Vec<i32>) -> (out: Vec<u8>)
    ensures
        out@ == encode_words(ws@),
        out@.len() == 4 * ws@.len(),
{
    let mut out: Vec<u8> = Vec::new();
    let mut i: usize = 0;
    proof {
        assert(ws@.take(0) =~= Seq::<i32>::empty());
    }
    while i < ws.len()
        invariant
            0 <= i <= ws@.len(),
            out@ == encode_words(ws@.take(i as int)),
            out@.len() == 4 * i,
        decreases ws@.len() - i,
    {
        let v = ws[i];
        let u = v as u32;
        out.push((u & 0xff) as u8);
        out.push(((u >> 8) & 0xff) as u8);
        out.push(((u >> 16) & 0xff) as u8);
        out.push(((u >> 24) & 0xff) as u8);
        proof {
            lemma_encode_push(ws@.take(i as int), v);
            assert(ws@.take(i as int).push(v) =~= ws@.take(i + 1));
            assert(out@ =~= encode_words(ws@.take(i as int)) + word_le(v));
        }
        i = i + 1;
    }
    proof {
        assert(ws@.take(ws@.len() as int) =~= ws@);
    }
    out
}

/// Decoding distributes over appending one word's bytes.
proof fn lemma_words_push(bs: Seq<u8>, b0: u8, b1: u8, b2: u8, b3: u8)
    requires
        bs.len() % 4 == 0,
    ensures
        words_of(bs + seq![b0, b1, b2, b3]) =~= words_of(bs).push(word_of(b0, b1, b2, b3)),
    decreases bs.len(),
{
    let tail = seq![b0, b1, b2, b3];
    let w = word_of(b0, b1, b2, b3);
    if bs.len() == 0 {
        assert(bs =~= Seq::<u8>::empty());
        assert(bs + tail =~= tail);
        assert(tail.skip(4) =~= Seq::<u8>::empty());
        assert(words_of(Seq::<u8>::empty()) == Seq::<i32>::empty());
        assert(tail.len() == 4);
        assert(words_of(tail) == seq![word_of(tail[0], tail[1], tail[2], tail[3])] + words_of(
            tail.skip(4),
        ));
        assert(tail[0] == b0 && tail[1] == b1 && tail[2] == b2 && tail[3] == b3);
        assert(seq![w] + Seq::<i32>::empty() =~= seq![w]);
        assert(words_of(bs).push(w) =~= seq![w]);
    } else {
        lemma_words_push(bs.skip(4), b0, b1, b2, b3);
        let all = bs + tail;
        assert(all.skip(4) =~= bs.skip(4) + tail);
        assert(all[0] == bs[0] && all[1] == bs[1] && all[2] == bs[2] && all[3] == bs[3]);
        assert(words_of(all) =~= seq![word_of(bs[0], bs[1], bs[2], bs[3])] + words_of(
            bs.skip(4) + tail,
        ));
        assert(words_of(bs).push(w) =~= seq![word_of(bs[0], bs[1], bs[2], bs[3])] + words_of(
            bs.skip(4),
        ).push(w));
    }
}

/// Decodes little-endian bytes into words; the byte count must be an
/// exact multiple of the word size.
pub fn decode_words_vec(bs: &Vec<u8>) -> (out: Vec<i32>)
    requires
        bs@.len() % 4 == 0,
    ensures
        out@ == words_of(bs@),
        out@.len() == bs@.len() / 4,
    decreases bs@.len(),
{
    let mut out: Vec<i32> = Vec::new();
    let mut i: usize = 0;
    proof {
        assert(bs@.take(0) =~= Seq::<u8>::empty());
    }
    while i < bs.len()
        invariant
            0 <= i <= bs@.len(),
            i % 4 == 0,
            bs@.len() % 4 == 0,
            out@ == words_of(bs@.take(i as int)),
            out@.len() == i / 4,
        decreases bs@.len() - i,
    {
        let b0 = bs[i];
        let b1 = bs[i + 1];
        let b2 = bs[i + 2];
        let b3 = bs[i + 3];
        let u: u32 = b0 as u32 | (b1 as u32) << 8 | (b2 as u32) << 16 | (b3 as u32) << 24;
        out.push(#[verifier::truncate] (u as i32));
        proof {
            lemma_words_push(bs@.take(i as int), b0, b1, b2, b3);
            assert(bs@.take(i as int) + seq![b0, b1, b2, b3] =~= bs@.take(i + 4));
        }
        i = i + 4;
    }
    proof {
        assert(i == bs@.len());
        assert(bs@.take(bs@.len() as int) =~= bs@);
    }
    out
}

} // verus!
