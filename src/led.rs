//! Differential encoding of an RGB pixel frame into `(index, r, g, b)`
//! records, and their split into size-bounded datagrams.
use vstd::prelude::*;

verus! {

/// One LED's colour.
#[derive(Clone, Copy, Debug, PartialEq, Eq, Structural)]
pub struct Rgb {
    pub r: u8,
    pub g: u8,
    pub b: u8,
}

/// The four bytes that announce pixel `i` with colour `p`.
pub open spec fn record(i: int, p: Rgb) -> Seq<u8> {
    seq![i as u8, p.r, p.g, p.b]
}

/// The records of every row of `pixels` that differs from the same row of
/// `prev`, in row order.
pub open spec fn diff_records(pixels: Seq<Rgb>, prev: Seq<Rgb>) -> Seq<u8>
    decreases pixels.len(),
{
    if pixels.len() == 0 {
        Seq::empty()
    } else {
        let n = pixels.len() - 1;
        let head = diff_records(pixels.take(n), prev);
        if pixels[n] == prev[n] {
            head
        } else {
            head + record(n, pixels[n])
        }
    }
}

/// The flat buffer of `(index, r, g, b)` records of the rows of `pixels` that
/// changed since `pixels_prev`.
pub fn create_send_buffer(pixels: &Vec<Rgb>, pixels_prev: &Vec<Rgb>) -> (r: Vec<u8>)
    requires
        pixels.len() == pixels_prev.len(),
        pixels.len() <= 256,
    ensures
        r@ == diff_records(pixels@, pixels_prev@),
{
    let mut out: Vec<u8> = Vec::new();
    let mut i: usize = 0;
    while i < pixels.len()
        invariant
            i <= pixels.len(),
            pixels.len() == pixels_prev.len(),
            pixels.len() <= 256,
            out@ == diff_records(pixels@.take(i as int), pixels_prev@),
        decreases pixels.len() - i,
    {
        let p = pixels[i];
        proof {
            assert(pixels@.take(i + 1).take(i as int) == pixels@.take(i as int));
        }
        if p != pixels_prev[i] {
            out.push(i as u8);
            out.push(p.r);
            out.push(p.g);
            out.push(p.b);
        }
        i = i + 1;
    }
    proof {
        assert(pixels@.take(pixels.len() as int) == pixels@);
    }
    out
}

/// Largest number of pixel records in one datagram.
pub const MAX_PIXELS_PER_PACKET: usize = 126;

/// Largest payload of one datagram, in bytes: four per record.
pub const MAX_PACKET_BYTES: usize = 4 * MAX_PIXELS_PER_PACKET;

/// The perceptual gamma curve (exponent 2.8) applied to every channel byte
/// when software gamma correction is on.
pub open spec fn gamma_curve() -> Seq<u8> {
    seq![
        0, 0, 0, 0, 0, 0, 0, 0, 0, 0, 0, 0, 0, 0, 0, 0,
        0, 0, 0, 0, 0, 0, 0, 0, 0, 0, 0, 0, 1, 1, 1, 1,
        1, 1, 1, 1, 1, 1, 1, 1, 1, 2, 2, 2, 2, 2, 2, 2,
        2, 3, 3, 3, 3, 3, 3, 3, 4, 4, 4, 4, 4, 5, 5, 5,
        5, 6, 6, 6, 6, 7, 7, 7, 7, 8, 8, 8, 9, 9, 9, 10,
        10, 10, 11, 11, 11, 12, 12, 13, 13, 13, 14, 14, 15, 15, 16, 16,
        17, 17, 18, 18, 19, 19, 20, 20, 21, 21, 22, 22, 23, 24, 24, 25,
        25, 26, 27, 27, 28, 29, 29, 30, 31, 32, 32, 33, 34, 35, 35, 36,
        37, 38, 39, 39, 40, 41, 42, 43, 44, 45, 46, 47, 48, 49, 50, 50,
        51, 52, 54, 55, 56, 57, 58, 59, 60, 61, 62, 63, 64, 66, 67, 68,
        69, 70, 72, 73, 74, 75, 77, 78, 79, 81, 82, 83, 85, 86, 87, 89,
        90, 92, 93, 95, 96, 98, 99, 101, 102, 104, 105, 107, 109, 110, 112, 114,
        115, 117, 119, 120, 122, 124, 126, 127, 129, 131, 133, 135, 137, 138, 140, 142,
        144, 146, 148, 150, 152, 154, 156, 158, 160, 162, 164, 167, 169, 171, 173, 175,
        177, 180, 182, 184, 186, 189, 191, 193, 196, 198, 200, 203, 205, 208, 210, 213,
        215, 218, 220, 223, 225, 228, 231, 233, 236, 239, 241, 244, 247, 249, 252, 255,
    ]
}

/// The 256-entry lookup table of the gamma curve.
pub fn gamma_table() -> (r: Vec<u8>)
    ensures
        r@ == gamma_curve(),
{
    let v: Vec<u8> = vec![
        0, 0, 0, 0, 0, 0, 0, 0, 0, 0, 0, 0, 0, 0, 0, 0,
        0, 0, 0, 0, 0, 0, 0, 0, 0, 0, 0, 0, 1, 1, 1, 1,
        1, 1, 1, 1, 1, 1, 1, 1, 1, 2, 2, 2, 2, 2, 2, 2,
        2, 3, 3, 3, 3, 3, 3, 3, 4, 4, 4, 4, 4, 5, 5, 5,
        5, 6, 6, 6, 6, 7, 7, 7, 7, 8, 8, 8, 9, 9, 9, 10,
        10, 10, 11, 11, 11, 12, 12, 13, 13, 13, 14, 14, 15, 15, 16, 16,
        17, 17, 18, 18, 19, 19, 20, 20, 21, 21, 22, 22, 23, 24, 24, 25,
        25, 26, 27, 27, 28, 29, 29, 30, 31, 32, 32, 33, 34, 35, 35, 36,
        37, 38, 39, 39, 40, 41, 42, 43, 44, 45, 46, 47, 48, 49, 50, 50,
        51, 52, 54, 55, 56, 57, 58, 59, 60, 61, 62, 63, 64, 66, 67, 68,
        69, 70, 72, 73, 74, 75, 77, 78, 79, 81, 82, 83, 85, 86, 87, 89,
        90, 92, 93, 95, 96, 98, 99, 101, 102, 104, 105, 107, 109, 110, 112, 114,
        115, 117, 119, 120, 122, 124, 126, 127, 129, 131, 133, 135, 137, 138, 140, 142,
        144, 146, 148, 150, 152, 154, 156, 158, 160, 162, 164, 167, 169, 171, 173, 175,
        177, 180, 182, 184, 186, 189, 191, 193, 196, 198, 200, 203, 205, 208, 210, 213,
        215, 218, 220, 223, 225, 228, 231, 233, 236, 239, 241, 244, 247, 249, 252, 255,
    ];
    proof {
        assert(v@ =~= gamma_curve());
    }
    v
}

/// A pixel with each channel passed through `table`.
pub open spec fn gamma_pixel(table: Seq<u8>, p: Rgb) -> Rgb {
    Rgb { r: table[p.r as int], g: table[p.g as int], b: table[p.b as int] }
}

/// Each pixel of `pixels` with each channel passed through `table`.
pub open spec fn gamma_frame(table: Seq<u8>, pixels: Seq<Rgb>) -> Seq<Rgb> {
    pixels.map_values(|p: Rgb| gamma_pixel(table, p))
}

/// Remaps every channel byte of every pixel through the lookup `table`, in place.
pub fn apply_gamma(table: &Vec<u8>, pixels: &mut Vec<Rgb>)
    requires
        table.len() == 256,
    ensures
        final(pixels)@ == gamma_frame(table@, old(pixels)@),
{
    let mut i: usize = 0;
    while i < pixels.len()
        invariant
            table.len() == 256,
            i <= pixels.len(),
            pixels.len() == old(pixels).len(),
            forall|j: int| 0 <= j < i ==> pixels@[j] == gamma_pixel(table@, old(pixels)@[j]),
            forall|j: int| i <= j < pixels.len() ==> pixels@[j] == old(pixels)@[j],
        decreases pixels.len() - i,
    {
        let p = pixels[i];
        let q = Rgb { r: table[p.r as usize], g: table[p.g as usize], b: table[p.b as usize] };
        pixels.set(i, q);
        i = i + 1;
    }
    proof {
        assert(pixels@ =~= gamma_frame(table@, old(pixels)@));
    }
}

/// The number of datagrams that carry a buffer of `len` bytes.
pub open spec fn packet_count(len: int) -> int {
    (len + MAX_PACKET_BYTES - 1) / MAX_PACKET_BYTES as int
}

/// The `k`-th datagram of `buf`: its bytes from `k * MAX_PACKET_BYTES`, at most
/// `MAX_PACKET_BYTES` of them.
pub open spec fn packet(buf: Seq<u8>, k: int) -> Seq<u8> {
    let start = k * MAX_PACKET_BYTES;
    let end = if start + MAX_PACKET_BYTES <= buf.len() {
        start + MAX_PACKET_BYTES
    } else {
        buf.len() as int
    };
    buf.subrange(start, end)
}

/// `packets` are the datagrams of `buf`, in order.
pub open spec fn is_split_of(packets: Seq<Vec<u8>>, buf: Seq<u8>) -> bool {
    &&& packets.len() == packet_count(buf.len() as int)
    &&& forall|k: int| 0 <= k < packets.len() ==> #[trigger] packets[k]@ == packet(buf, k)
}

/// Splits a record buffer into consecutive datagrams of at most
/// `MAX_PACKET_BYTES` bytes; an empty buffer gives no datagram.
pub fn split_packets(buf: &Vec<u8>) -> (r: Vec<Vec<u8>>)
    ensures
        is_split_of(r@, buf@),
{
    let mut out: Vec<Vec<u8>> = Vec::new();
    let mut start: usize = 0;
    while start < buf.len()
        invariant
            start <= buf.len(),
            start == buf.len() || start == out.len() * MAX_PACKET_BYTES,
            out.len() == packet_count(start as int),
            forall|k: int| 0 <= k < out.len() ==> #[trigger] out@[k]@ == packet(buf@, k),
        decreases buf.len() - start,
    {
        let end: usize = if buf.len() - start > MAX_PACKET_BYTES {
            start + MAX_PACKET_BYTES
        } else {
            buf.len()
        };
        let mut chunk: Vec<u8> = Vec::new();
        let mut j: usize = start;
        while j < end
            invariant
                start <= j <= end <= buf.len(),
                chunk@ == buf@.subrange(start as int, j as int),
            decreases end - j,
        {
            chunk.push(buf[j]);
            proof {
                assert(buf@.subrange(start as int, j + 1) =~= buf@.subrange(start as int, j as int).push(buf@[j as int]));
            }
            j = j + 1;
        }
        proof {
            assert(chunk@ == packet(buf@, out.len() as int));
        }
        out.push(chunk);
        start = end;
    }
    out
}

/// The number of rows in which `pixels` and `prev` differ.
pub open spec fn changed_rows(pixels: Seq<Rgb>, prev: Seq<Rgb>) -> nat
    decreases pixels.len(),
{
    if pixels.len() == 0 {
        0
    } else {
        let n = pixels.len() - 1;
        changed_rows(pixels.take(n), prev) + if pixels[n] == prev[n] {
            0nat
        } else {
            1nat
        }
    }
}

/// Every changed row adds one four-byte record to the buffer.
pub proof fn lemma_diff_len(pixels: Seq<Rgb>, prev: Seq<Rgb>)
    ensures
        diff_records(pixels, prev).len() == 4 * changed_rows(pixels, prev),
    decreases pixels.len(),
{
    if pixels.len() > 0 {
        lemma_diff_len(pixels.take(pixels.len() - 1), prev);
    }
}

/// Rows equal to the previous frame add nothing.
pub proof fn lemma_unchanged_rows(pixels: Seq<Rgb>, prev: Seq<Rgb>)
    requires
        pixels.len() <= prev.len(),
        forall|i: int| 0 <= i < pixels.len() ==> pixels[i] == prev[i],
    ensures
        changed_rows(pixels, prev) == 0,
    decreases pixels.len(),
{
    if pixels.len() > 0 {
        lemma_unchanged_rows(pixels.take(pixels.len() - 1), prev);
    }
}

/// Size of a differential update: a frame equal to the previous one encodes to
/// no byte and no datagram; a frame in which exactly `k` rows differ encodes to
/// `4 * k` bytes, carried by `ceil(k / MAX_PIXELS_PER_PACKET)` datagrams.
pub proof fn lemma_update_size(pixels: Seq<Rgb>, prev: Seq<Rgb>)
    requires
        pixels.len() == prev.len(),
    ensures
        diff_records(pixels, prev).len() == 4 * changed_rows(pixels, prev),
        packet_count(diff_records(pixels, prev).len() as int) == (changed_rows(pixels, prev)
            + MAX_PIXELS_PER_PACKET - 1) / MAX_PIXELS_PER_PACKET as int,
        pixels == prev ==> diff_records(pixels, prev).len() == 0,
        pixels == prev ==> packet_count(diff_records(pixels, prev).len() as int) == 0,
{
    lemma_diff_len(pixels, prev);
    let k = changed_rows(pixels, prev) as int;
    assert((4 * k + 503) / 504 == (k + 125) / 126) by (nonlinear_arith)
        requires
            k >= 0,
    ;
    if pixels == prev {
        lemma_unchanged_rows(pixels, prev);
    }
}

/// Turns successive pixel frames into the datagrams of a differential update.
pub struct LedEncoder {
    /// The lookup table applied to every channel byte, when gamma correction is on.
    pub gamma_table: Option<Vec<u8>>,
}

impl LedEncoder {
    /// The gamma table, when present, has one entry per byte value.
    pub open spec fn wf(&self) -> bool {
        self.gamma_table matches Some(t) ==> t.len() == 256
    }

    /// The frame as sent: `pixels` passed through the gamma table, if any.
    pub open spec fn corrected(&self, pixels: Seq<Rgb>) -> Seq<Rgb> {
        match self.gamma_table {
            Some(t) => gamma_frame(t@, pixels),
            None => pixels,
        }
    }

    /// An encoder with the gamma curve when `software_gamma_correction` is set,
    /// and without any remapping otherwise.
    pub fn new(software_gamma_correction: bool) -> (r: LedEncoder)
        ensures
            r.wf(),
            software_gamma_correction ==> (r.gamma_table matches Some(t) && t@ == gamma_curve()),
            !software_gamma_correction ==> r.gamma_table is None,
    {
        if software_gamma_correction {
            LedEncoder { gamma_table: Some(gamma_table()) }
        } else {
            LedEncoder { gamma_table: None }
        }
    }

    /// Applies the gamma table to `pixels` in place, then returns the
    /// datagrams that carry the records of the rows that differ from
    /// `pixels_prev`.
    pub fn encode(&self, pixels: &mut Vec<Rgb>, pixels_prev: &Vec<Rgb>) -> (r: Vec<Vec<u8>>)
        requires
            self.wf(),
            old(pixels).len() == pixels_prev.len(),
            old(pixels).len() <= 256,
        ensures
            final(pixels)@ == self.corrected(old(pixels)@),
            is_split_of(r@, diff_records(final(pixels)@, pixels_prev@)),
    {
        match &self.gamma_table {
            Some(t) => apply_gamma(t, pixels),
            None => {},
        }
        let buf = create_send_buffer(pixels, pixels_prev);
        split_packets(&buf)
    }
}

} // verus!
