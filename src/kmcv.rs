use vstd::prelude::*;
use vstd::utf8::{decode_utf8, valid_utf8};

use crate::error::Error;

verus! {

/// Length of the fixed header block of a KMCV k-mer index.
pub const HEADER_LEN: usize = 52;

/// Length of one target record.
pub const TARGET_LEN: usize = 12;

/// Bits of the integer type that holds a packed k-mer (two bits per base).
pub const KMER_TYPE_BITS: u32 = 32;

/// The little-endian 16-bit integer at `b[i..i + 2]`.
pub open spec fn le_u16(b: Seq<u8>, i: int) -> int {
    b[i] + 256 * b[i + 1]
}

/// The little-endian 32-bit integer at `b[i..i + 4]`.
pub open spec fn le_u32(b: Seq<u8>, i: int) -> int {
    b[i] + 256 * b[i + 1] + 65536 * b[i + 2] + 16777216 * b[i + 3]
}

fn get_u16_from_slice(p: &[u8], i: usize) -> (r: u16)
    requires
        i + 2 <= p@.len(),
    ensures
        r == le_u16(p@, i as int),
{
    p[i] as u16 + 256 * (p[i + 1] as u16)
}

fn get_u32_from_slice(p: &[u8], i: usize) -> (r: u32)
    requires
        i + 4 <= p@.len(),
    ensures
        r == le_u32(p@, i as int),
{
    p[i] as u32 + 256 * (p[i + 1] as u32) + 65536 * (p[i + 2] as u32) + 16777216 * (p[i + 3] as u32)
}

/// The header fields of a k-mer index; two count sets are compatible when
/// these are equal.
#[derive(Clone, Copy, Debug, PartialEq, Eq, Structural)]
pub struct KmcvHeaderCore {
    pub version_major: u8,
    pub version_minor: u8,
    pub kmer_length: u8,
    pub max_hits: u8,
    pub n_contigs: u32,
    pub n_targets: u32,
    pub rnd_id: u32,
}

/// A validated k-mer index header.
#[derive(Clone, Copy, Debug)]
pub struct KmcvHeader {
    pub core: KmcvHeaderCore,
}

/// Why the header block `b` is refused, if it is.
pub open spec fn header_error(b: Seq<u8>) -> Option<Error> {
    if b.len() < HEADER_LEN {
        Some(Error::Truncated)
    } else if b[0] != 75 || b[1] != 77 || b[2] != 67 || b[3] != 86 {
        // "KMCV"
        Some(Error::BadMagic)
    } else if b[4] != 2 {
        Some(Error::BadVersion)
    } else if 2 * b[6] > KMER_TYPE_BITS {
        Some(Error::KmerLengthTooLarge)
    } else {
        None
    }
}

/// The header fields stored in the header block `b`.
pub open spec fn header_core(b: Seq<u8>) -> KmcvHeaderCore {
    KmcvHeaderCore {
        version_major: b[4],
        version_minor: b[5],
        kmer_length: b[6],
        max_hits: b[7],
        rnd_id: le_u32(b, 8) as u32,
        n_contigs: le_u32(b, 12) as u32,
        n_targets: le_u32(b, 16) as u32,
    }
}

impl KmcvHeader {
    /// Reads the header block at the start of `buf`.
    pub fn read(buf: &[u8]) -> (r: Result<KmcvHeader, Error>)
        ensures
            match r {
                Ok(h) => header_error(buf@) is None && h.core == header_core(buf@),
                Err(e) => header_error(buf@) == Some(e),
            },
    {
        if buf.len() < HEADER_LEN {
            return Err(Error::Truncated);
        }
        if buf[0] != 75 || buf[1] != 77 || buf[2] != 67 || buf[3] != 86 {
            return Err(Error::BadMagic);
        }
        if buf[4] != 2 {
            return Err(Error::BadVersion);
        }
        let kmer_length = buf[6];
        if 2 * (kmer_length as u32) > KMER_TYPE_BITS {
            return Err(Error::KmerLengthTooLarge);
        }
        let rnd_id = get_u32_from_slice(buf, 8);
        let n_contigs = get_u32_from_slice(buf, 12);
        let n_targets = get_u32_from_slice(buf, 16);
        Ok(KmcvHeader {
            core: KmcvHeaderCore {
                version_major: buf[4],
                version_minor: buf[5],
                kmer_length,
                max_hits: buf[7],
                n_contigs,
                n_targets,
                rnd_id,
            },
        })
    }
}

/// Relies on std::str::from_utf8: it accepts exactly the valid UTF-8 byte
/// strings, and decodes them.
#[verifier::external_body]
fn decode_utf8_name(b: &[u8]) -> (r: Option<String>)
    ensures
        r is Some <==> valid_utf8(b@),
        r matches Some(s) ==> s@ == decode_utf8(b@),
{
    std::str::from_utf8(b).ok().map(|s| s.to_string())
}

/// The contig name block at position `p` of `b`: the name and the position
/// after it, or why it is refused.
pub open spec fn contig_at(b: Seq<u8>, p: int) -> Result<(Seq<char>, int), Error> {
    if p + 2 > b.len() {
        Err(Error::Truncated)
    } else {
        let l = le_u16(b, p);
        if l == 0 {
            Err(Error::EmptyContigName)
        } else if p + 2 + l > b.len() {
            Err(Error::Truncated)
        } else if !valid_utf8(b.subrange(p + 2, p + 2 + l)) {
            Err(Error::ContigNameNotUtf8)
        } else {
            Ok((decode_utf8(b.subrange(p + 2, p + 2 + l)), p + 2 + l))
        }
    }
}

/// The first `i` contig names after the header, with the position after
/// them, or the first refusal among them.
pub open spec fn contigs_upto(b: Seq<u8>, i: nat) -> Result<(Seq<Seq<char>>, int), Error>
    decreases i,
{
    if i == 0 {
        Ok((Seq::empty(), HEADER_LEN as int))
    } else {
        match contigs_upto(b, (i - 1) as nat) {
            Err(e) => Err(e),
            Ok((names, p)) => match contig_at(b, p) {
                Err(e) => Err(e),
                Ok((name, q)) => Ok((names.push(name), q)),
            },
        }
    }
}

/// The target record at position `p` of `b` as (contig, start, end), or why
/// it is refused, given `nc` contigs.
pub open spec fn target_at(b: Seq<u8>, p: int, nc: int) -> Result<(int, int, int), Error> {
    if p + TARGET_LEN > b.len() {
        Err(Error::Truncated)
    } else if le_u32(b, p) >= nc {
        Err(Error::ContigOutOfRange)
    } else if le_u32(b, p + 8) < le_u32(b, p + 4) {
        Err(Error::EndBeforeStart)
    } else {
        Ok((le_u32(b, p), le_u32(b, p + 4), le_u32(b, p + 8)))
    }
}

/// The first `i` target records from position `start`, or the first refusal
/// among them.
pub open spec fn targets_upto(b: Seq<u8>, start: int, nc: int, i: nat) -> Result<
    Seq<(int, int, int)>,
    Error,
>
    decreases i,
{
    if i == 0 {
        Ok(Seq::empty())
    } else {
        match targets_upto(b, start, nc, (i - 1) as nat) {
            Err(e) => Err(e),
            Ok(ts) => match target_at(b, start + TARGET_LEN * (i - 1), nc) {
                Err(e) => Err(e),
                Ok(t) => Ok(ts.push(t)),
            },
        }
    }
}

/// What a whole k-mer index `b` holds: its header, its contig names and its
/// targets, or the first refusal.
pub open spec fn kmcv_parse(b: Seq<u8>) -> Result<
    (KmcvHeaderCore, Seq<Seq<char>>, Seq<(int, int, int)>),
    Error,
> {
    match header_error(b) {
        Some(e) => Err(e),
        None => {
            let h = header_core(b);
            match contigs_upto(b, h.n_contigs as nat) {
                Err(e) => Err(e),
                Ok((names, p)) => match targets_upto(b, p, h.n_contigs as int, h.n_targets as nat) {
                    Err(e) => Err(e),
                    Ok(ts) => Ok((h, names, ts)),
                },
            }
        }
    }
}

/// The indices below `n` of the targets in `ts` that lie on contig `c`, in
/// increasing order.
pub open spec fn targets_of(ts: Seq<(int, int, int)>, c: int, n: nat) -> Seq<u32>
    decreases n,
{
    if n == 0 {
        Seq::empty()
    } else if ts[n - 1].0 == c {
        targets_of(ts, c, (n - 1) as nat).push((n - 1) as u32)
    } else {
        targets_of(ts, c, (n - 1) as nat)
    }
}

proof fn lemma_contigs_err_stays(b: Seq<u8>, i: nat, j: nat)
    requires
        i <= j,
        contigs_upto(b, i) is Err,
    ensures
        contigs_upto(b, j) == contigs_upto(b, i),
    decreases j - i,
{
    if i < j {
        lemma_contigs_err_stays(b, i, (j - 1) as nat);
    }
}

proof fn lemma_targets_err_stays(b: Seq<u8>, start: int, nc: int, i: nat, j: nat)
    requires
        i <= j,
        targets_upto(b, start, nc, i) is Err,
    ensures
        targets_upto(b, start, nc, j) == targets_upto(b, start, nc, i),
    decreases j - i,
{
    if i < j {
        lemma_targets_err_stays(b, start, nc, i, (j - 1) as nat);
    }
}

/// A target interval, both ends included.
#[derive(Clone, Copy, Debug)]
pub struct Target {
    pub start: u32,
    pub end: u32,
}

impl Target {
    /// Number of positions the target covers.
    pub fn size(&self) -> (r: u64)
        requires
            self.start <= self.end,
        ensures
            r == self.end - self.start + 1,
    {
        self.end as u64 + 1 - self.start as u64
    }

    /// Reads the target record at `p`: the target and its contig index.
    fn read(buf: &[u8], p: usize, n_contigs: u32) -> (r: Result<(Target, u32), Error>)
        ensures
            match r {
                Ok((t, c)) => target_at(buf@, p as int, n_contigs as int) == Ok::<(int, int, int), Error>(
                    (c as int, t.start as int, t.end as int),
                ),
                Err(e) => target_at(buf@, p as int, n_contigs as int) == Err::<(int, int, int), Error>(e),
            },
    {
        if buf.len() < TARGET_LEN || p > buf.len() - TARGET_LEN {
            return Err(Error::Truncated);
        }
        let contig = Self::get_contig(buf, p, n_contigs)?;
        let (start, end) = Self::get_start_end(buf, p + 4)?;
        Ok((Target { start, end }, contig))
    }

    fn get_contig(buf: &[u8], p: usize, n_contigs: u32) -> (r: Result<u32, Error>)
        requires
            p + 4 <= buf@.len(),
        ensures
            match r {
                Ok(c) => c == le_u32(buf@, p as int) && c < n_contigs,
                Err(e) => e == Error::ContigOutOfRange && le_u32(buf@, p as int) >= n_contigs,
            },
    {
        let contig = get_u32_from_slice(buf, p);
        if contig >= n_contigs {
            Err(Error::ContigOutOfRange)
        } else {
            Ok(contig)
        }
    }

    fn get_start_end(buf: &[u8], p: usize) -> (r: Result<(u32, u32), Error>)
        requires
            p + 8 <= buf.len(),
        ensures
            match r {
                Ok((s, e)) => s == le_u32(buf@, p as int) && e == le_u32(buf@, p + 4) && s <= e,
                Err(e) => e == Error::EndBeforeStart && le_u32(buf@, p + 4) < le_u32(buf@, p as int),
            },
    {
        let start = get_u32_from_slice(buf, p);
        let end = get_u32_from_slice(buf, p + 4);
        if end < start {
            Err(Error::EndBeforeStart)
        } else {
            Ok((start, end))
        }
    }
}

/// A contig of the k-mer index: its name and the indices of its targets.
#[derive(Clone, Debug)]
pub struct KContig {
    pub name: String,
    pub targets: Vec<u32>,
}

impl KContig {
    /// Reads the contig name block at `p`: the contig (with no targets yet)
    /// and the position after the block.
    fn read(buf: &[u8], p: usize) -> (r: Result<(KContig, usize), Error>)
        ensures
            match r {
                Ok((c, q)) => contig_at(buf@, p as int) == Ok::<(Seq<char>, int), Error>(
                    (c.name@, q as int),
                ) && c.targets@.len() == 0,
                Err(e) => contig_at(buf@, p as int) == Err::<(Seq<char>, int), Error>(e),
            },
    {
        if buf.len() < 2 || p > buf.len() - 2 {
            return Err(Error::Truncated);
        }
        let l = get_u16_from_slice(buf, p) as usize;
        if l == 0 {
            return Err(Error::EmptyContigName);
        }
        if l > buf.len() - 2 - p {
            return Err(Error::Truncated);
        }
        let raw = vstd::slice::slice_subrange(buf, p + 2, p + 2 + l);
        match decode_utf8_name(raw) {
            None => Err(Error::ContigNameNotUtf8),
            Some(name) => Ok((KContig { name, targets: Vec::new() }, p + 2 + l)),
        }
    }
}

/// A k-mer index: header, contigs and targets.
#[derive(Clone, Debug)]
pub struct Kmcv {
    pub header: KmcvHeader,
    pub contigs: Vec<KContig>,
    pub targets: Vec<Target>,
}

impl Kmcv {
    /// The index holds what `kmcv_parse` finds in a buffer: header, contig
    /// names, targets, and for each contig the indices of its targets.
    pub open spec fn holds(
        &self,
        h: KmcvHeaderCore,
        names: Seq<Seq<char>>,
        ts: Seq<(int, int, int)>,
    ) -> bool {
        &&& self.header.core == h
        &&& self.contigs@.len() == names.len()
        &&& self.targets@.len() == ts.len()
        &&& forall|c: int| 0 <= c < names.len() ==> #[trigger] self.contigs@[c].name@ == names[c]
        &&& forall|c: int|
            0 <= c < names.len() ==> #[trigger] self.contigs@[c].targets@ == targets_of(
                ts,
                c,
                ts.len(),
            )
        &&& forall|t: int|
            0 <= t < ts.len() ==> #[trigger] self.targets@[t].start == ts[t].1
                && self.targets@[t].end == ts[t].2
    }

    /// Every target's end lies at or after its start.
    pub open spec fn wf(&self) -> bool {
        forall|t: int| 0 <= t < self.targets@.len() ==> #[trigger] self.targets@[t].start <= self.targets@[t].end
    }

    /// Reads a whole k-mer index from `buf`.
    pub fn read(buf: &[u8]) -> (r: Result<Kmcv, Error>)
        ensures
            match r {
                Ok(k) => kmcv_parse(buf@) matches Ok((h, names, ts)) && k.holds(h, names, ts)
                    && k.wf(),
                Err(e) => kmcv_parse(buf@) == Err::<
                    (KmcvHeaderCore, Seq<Seq<char>>, Seq<(int, int, int)>),
                    Error,
                >(e),
            },
    {
        let header = KmcvHeader::read(buf)?;
        let mut kmcv = Kmcv { header, contigs: Vec::new(), targets: Vec::new() };
        let p = kmcv.read_contig_blocks(buf)?;
        kmcv.read_target_blocks(buf, p)?;
        Ok(kmcv)
    }

    /// Size of target `ix`, if there is such a target.
    pub fn get_target_size(&self, ix: usize) -> (r: Option<u64>)
        requires
            self.wf(),
        ensures
            match r {
                Some(s) => ix < self.targets@.len() && s == self.targets@[ix as int].end
                    - self.targets@[ix as int].start + 1,
                None => ix >= self.targets@.len(),
            },
    {
        if ix < self.targets.len() {
            Some(self.targets[ix].size())
        } else {
            None
        }
    }

    fn read_contig_blocks(&mut self, buf: &[u8]) -> (r: Result<usize, Error>)
        requires
            header_error(buf@) is None,
            old(self).header.core == header_core(buf@),
        ensures
            final(self).header == old(self).header,
            final(self).targets@.len() == 0,
            match r {
                Ok(p) => contigs_upto(buf@, header_core(buf@).n_contigs as nat) matches Ok((names, q))
                    && q == p && names.len() == header_core(buf@).n_contigs
                    && final(self).contigs@.len() == names.len()
                    && (forall|c: int|
                    0 <= c < names.len() ==> #[trigger] final(self).contigs@[c].name@ == names[c]
                    ) && forall|c: int|
                    0 <= c < names.len() ==> #[trigger] final(self).contigs@[c].targets@.len() == 0,
                Err(e) => contigs_upto(buf@, header_core(buf@).n_contigs as nat) == Err::<
                    (Seq<Seq<char>>, int),
                    Error,
                >(e),
            },
    {
        self.contigs.clear();
        self.targets.clear();
        let n = self.header.core.n_contigs;
        let mut p: usize = HEADER_LEN;
        let mut i: u32 = 0;
        while i < n
            invariant
                i <= n,
                n == header_core(buf@).n_contigs,
                self.header == old(self).header,
                self.targets@.len() == 0,
                contigs_upto(buf@, i as nat) matches Ok((names, q)) && q == p && names.len() == i
                    && self.contigs@.len() == names.len() && (forall|c: int|
                    0 <= c < names.len() ==> #[trigger] self.contigs@[c].name@ == names[c])
                    && (forall|c: int|
                    0 <= c < names.len() ==> #[trigger] self.contigs@[c].targets@.len() == 0),
            decreases n - i,
        {
            match KContig::read(buf, p) {
                Err(e) => {
                    proof {
                        lemma_contigs_err_stays(buf@, (i + 1) as nat, n as nat);
                    }
                    return Err(e);
                },
                Ok((c, q)) => {
                    self.contigs.push(c);
                    p = q;
                },
            }
            i = i + 1;
        }
        Ok(p)
    }

    fn read_target_blocks(&mut self, buf: &[u8], start: usize) -> (r: Result<(), Error>)
        requires
            header_error(buf@) is None,
            old(self).header.core == header_core(buf@),
            old(self).targets@.len() == 0,
            old(self).contigs@.len() == header_core(buf@).n_contigs,
            forall|c: int|
                0 <= c < old(self).contigs@.len() ==> #[trigger] old(self).contigs@[c].targets@.len()
                    == 0,
        ensures
            final(self).header == old(self).header,
            final(self).wf(),
            final(self).contigs@.len() == old(self).contigs@.len(),
            forall|c: int|
                0 <= c < old(self).contigs@.len() ==> #[trigger] final(self).contigs@[c].name
                    == old(self).contigs@[c].name,
            match r {
                Ok(_) => targets_upto(
                    buf@,
                    start as int,
                    header_core(buf@).n_contigs as int,
                    header_core(buf@).n_targets as nat,
                ) matches Ok(ts) && final(self).targets@.len() == ts.len() && (forall|c: int|
                    0 <= c < old(self).contigs@.len() ==> #[trigger] final(self).contigs@[c].targets@
                        == targets_of(ts, c, ts.len())) && (forall|t: int|
                    0 <= t < ts.len() ==> #[trigger] final(self).targets@[t].start == ts[t].1
                        && final(self).targets@[t].end == ts[t].2),
                Err(e) => targets_upto(
                    buf@,
                    start as int,
                    header_core(buf@).n_contigs as int,
                    header_core(buf@).n_targets as nat,
                ) == Err::<Seq<(int, int, int)>, Error>(e),
            },
    {
        let n_contigs = self.header.core.n_contigs;
        let n = self.header.core.n_targets;
        let ghost nc = n_contigs as int;
        let mut p: usize = start;
        let mut ix: u32 = 0;
        while ix < n
            invariant
                ix <= n,
                n == header_core(buf@).n_targets,
                n_contigs == header_core(buf@).n_contigs,
                nc == n_contigs as int,
                buf@.len() == buf.len(),
                self.wf(),
                self.header == old(self).header,
                self.contigs@.len() == old(self).contigs@.len(),
                self.contigs@.len() == n_contigs,
                p == start + TARGET_LEN * ix,
                forall|c: int|
                    0 <= c < old(self).contigs@.len() ==> #[trigger] self.contigs@[c].name
                        == old(self).contigs@[c].name,
                targets_upto(buf@, start as int, nc, ix as nat) matches Ok(ts)
                    && self.targets@.len() == ts.len() && ts.len() == ix && (forall|c: int|
                    0 <= c < old(self).contigs@.len() ==> #[trigger] self.contigs@[c].targets@
                        == targets_of(ts, c, ix as nat)) && (forall|t: int|
                    0 <= t < ts.len() ==> #[trigger] self.targets@[t].start == ts[t].1
                        && self.targets@[t].end == ts[t].2),
            decreases n - ix,
        {
            let ghost ts = targets_upto(buf@, start as int, nc, ix as nat)->Ok_0;
            match Target::read(buf, p, n_contigs) {
                Err(e) => {
                    proof {
                        lemma_targets_err_stays(buf@, start as int, nc, (ix + 1) as nat, n as nat);
                    }
                    return Err(e);
                },
                Ok((target, contig)) => {
                    let ghost t = (contig as int, target.start as int, target.end as int);
                    let ghost ts2 = ts.push(t);
                    self.contigs[contig as usize].targets.push(ix);
                    self.targets.push(target);
                    proof {
                        assert(targets_upto(buf@, start as int, nc, (ix + 1) as nat) == Ok::<
                            Seq<(int, int, int)>,
                            Error,
                        >(ts2));
                        assert forall|c: int| 0 <= c < old(self).contigs@.len() implies #[trigger] self.contigs@[c].targets@
                            == targets_of(ts2, c, (ix + 1) as nat) by {
                            lemma_targets_of_prefix(ts, ts2, c, ix as nat);
                        }
                    }
                },
            }
            ix = ix + 1;
            p = p + TARGET_LEN;
        }
        Ok(())
    }
}

proof fn lemma_targets_of_prefix(ts: Seq<(int, int, int)>, ts2: Seq<(int, int, int)>, c: int, n: nat)
    requires
        n <= ts.len(),
        ts2.len() >= ts.len(),
        forall|i: int| 0 <= i < ts.len() ==> ts2[i] == ts[i],
    ensures
        targets_of(ts2, c, n) == targets_of(ts, c, n),
    decreases n,
{
    if n > 0 {
        lemma_targets_of_prefix(ts, ts2, c, (n - 1) as nat);
    }
}

} // verus!
