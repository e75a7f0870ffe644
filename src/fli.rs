use vstd::prelude::*;
use vstd::string::StringExecFns;

verus! {

/// The identity dimension by which datasets are grouped.
#[derive(Clone, Copy, Debug, PartialEq, Eq, Structural)]
pub enum MergeKey {
    /// Inferred from whichever identity fields a dataset has.
    Default,
    Sample,
    Barcode,
    Library,
    /// Flowcell, lane and index together.
    Fli,
}

/// How the reads were bisulfite treated.
#[derive(Clone, Copy, Debug, PartialEq, Eq, Structural)]
pub enum BisulfiteType {
    NotTreated,
    Forward,
    Reverse,
    NonStranded,
}

/// The name of a bisulfite kind in reports.
pub open spec fn bisulfite_name(b: BisulfiteType) -> Seq<char> {
    match b {
        BisulfiteType::NotTreated => "None"@,
        BisulfiteType::Forward => "Forward"@,
        BisulfiteType::Reverse => "Reverse"@,
        BisulfiteType::NonStranded => "Non-stranded"@,
    }
}

impl BisulfiteType {
    /// The kind with the given ordinal in the input format: 0 none,
    /// 1 forward, 2 reverse, 3 non-stranded.
    pub fn from_ordinal(o: u64) -> (r: Option<BisulfiteType>)
        ensures
            o == 0 ==> r == Some(BisulfiteType::NotTreated),
            o == 1 ==> r == Some(BisulfiteType::Forward),
            o == 2 ==> r == Some(BisulfiteType::Reverse),
            o == 3 ==> r == Some(BisulfiteType::NonStranded),
            o > 3 ==> r is None,
    {
        match o {
            0 => Some(BisulfiteType::NotTreated),
            1 => Some(BisulfiteType::Forward),
            2 => Some(BisulfiteType::Reverse),
            3 => Some(BisulfiteType::NonStranded),
            _ => None,
        }
    }

    /// The name of the kind in reports.
    pub fn name(&self) -> (r: &'static str)
        ensures
            r@ == bisulfite_name(*self),
    {
        match self {
            BisulfiteType::NotTreated => "None",
            BisulfiteType::Forward => "Forward",
            BisulfiteType::Reverse => "Reverse",
            BisulfiteType::NonStranded => "Non-stranded",
        }
    }
}

/// The identity fields of a dataset, as values.
pub struct FliView {
    pub sample: Option<Seq<char>>,
    pub barcode: Option<Seq<char>>,
    pub library: Option<Seq<char>>,
    pub flowcell: Option<Seq<char>>,
    pub index: Option<Seq<char>>,
    pub lane: Option<u8>,
    pub read_end: Option<u8>,
}

/// Flowcell, lane, index and the other identity fields of a dataset; each
/// may be unknown.
#[derive(Clone, Debug)]
pub struct Fli {
    pub sample: Option<String>,
    pub barcode: Option<String>,
    pub library: Option<String>,
    pub flowcell: Option<String>,
    pub index: Option<String>,
    pub lane: Option<u8>,
    pub read_end: Option<u8>,
}

/// The text of an optional string.
pub open spec fn opt_view(o: Option<String>) -> Option<Seq<char>> {
    match o {
        Some(s) => Some(s@),
        None => None,
    }
}

impl View for Fli {
    type V = FliView;

    open spec fn view(&self) -> FliView {
        FliView {
            sample: opt_view(self.sample),
            barcode: opt_view(self.barcode),
            library: opt_view(self.library),
            flowcell: opt_view(self.flowcell),
            index: opt_view(self.index),
            lane: self.lane,
            read_end: self.read_end,
        }
    }
}

/// The decimal digit `d`.
pub open spec fn digit(d: int) -> char {
    if d == 0 {
        '0'
    } else if d == 1 {
        '1'
    } else if d == 2 {
        '2'
    } else if d == 3 {
        '3'
    } else if d == 4 {
        '4'
    } else if d == 5 {
        '5'
    } else if d == 6 {
        '6'
    } else if d == 7 {
        '7'
    } else if d == 8 {
        '8'
    } else {
        '9'
    }
}

/// The decimal representation of `n`, without leading zeros.
pub open spec fn decimal(n: nat) -> Seq<char>
    decreases n,
{
    if n < 10 {
        seq![digit(n as int)]
    } else {
        decimal(n / 10).push(digit((n % 10) as int))
    }
}

/// The flowcell, lane and index joined by `_`, when all three are known.
pub open spec fn fli_text(v: FliView) -> Option<Seq<char>> {
    match (v.flowcell, v.lane, v.index) {
        (Some(fc), Some(lane), Some(index)) => Some(
            fc + seq!['_'] + decimal(lane as nat) + seq!['_'] + index,
        ),
        _ => None,
    }
}

/// The value of the merge key of kind `key` for an identity.
pub open spec fn key_of(v: FliView, key: MergeKey) -> Option<Seq<char>> {
    match key {
        MergeKey::Sample => v.sample,
        MergeKey::Barcode => v.barcode,
        MergeKey::Library => v.library,
        MergeKey::Fli => fli_text(v),
        MergeKey::Default => None,
    }
}

/// The kind of merge key that an identity supports, in the priority order
/// sample, barcode, library, flowcell with lane and index.
pub open spec fn merge_key_of(v: FliView) -> Option<MergeKey> {
    if v.sample is Some {
        Some(MergeKey::Sample)
    } else if v.barcode is Some {
        Some(MergeKey::Barcode)
    } else if v.library is Some {
        Some(MergeKey::Library)
    } else if v.flowcell is Some && v.lane is Some && v.index is Some {
        Some(MergeKey::Fli)
    } else {
        None
    }
}

/// The identity that two identities have in common: each field that differs
/// becomes unknown.
pub open spec fn common(a: FliView, b: FliView) -> FliView {
    FliView {
        sample: if a.sample == b.sample { a.sample } else { None },
        barcode: if a.barcode == b.barcode { a.barcode } else { None },
        library: if a.library == b.library { a.library } else { None },
        flowcell: if a.flowcell == b.flowcell { a.flowcell } else { None },
        index: if a.index == b.index { a.index } else { None },
        lane: if a.lane == b.lane { a.lane } else { None },
        read_end: if a.read_end == b.read_end { a.read_end } else { None },
    }
}

fn digit_str(d: u8) -> (r: &'static str)
    requires
        d < 10,
    ensures
        r@ == seq![digit(d as int)],
{
    proof {
        reveal_strlit("0");
        reveal_strlit("1");
        reveal_strlit("2");
        reveal_strlit("3");
        reveal_strlit("4");
        reveal_strlit("5");
        reveal_strlit("6");
        reveal_strlit("7");
        reveal_strlit("8");
        reveal_strlit("9");
    }
    match d {
        0 => "0",
        1 => "1",
        2 => "2",
        3 => "3",
        4 => "4",
        5 => "5",
        6 => "6",
        7 => "7",
        8 => "8",
        _ => "9",
    }
}

/// Appends the decimal representation of `n` to `s`.
pub fn push_decimal(s: &mut String, n: u64)
    ensures
        final(s)@ == old(s)@ + decimal(n as nat),
    decreases n,
{
    if n >= 10 {
        push_decimal(s, n / 10);
    }
    s.append(digit_str((n % 10) as u8));
    assert(s@ =~= old(s)@ + decimal(n as nat));
}

/// The text of an optional field in a report: the value, or `NA`.
pub open spec fn text_column(o: Option<Seq<char>>) -> Seq<char> {
    match o {
        Some(t) => t,
        None => "NA"@,
    }
}

/// The text of an optional small integer in a report: its decimal form, or
/// `NA`.
pub open spec fn number_column(o: Option<u8>) -> Seq<char> {
    match o {
        Some(v) => decimal(v as nat),
        None => "NA"@,
    }
}

/// The report columns of an identity, separated by tabs: sample, barcode,
/// library, flowcell, index, lane and read end.
pub open spec fn fli_columns(v: FliView) -> Seq<char> {
    text_column(v.sample) + "\t"@ + text_column(v.barcode) + "\t"@ + text_column(v.library)
        + "\t"@ + text_column(v.flowcell) + "\t"@ + text_column(v.index) + "\t"@ + number_column(
        v.lane,
    ) + "\t"@ + number_column(v.read_end)
}

fn push_text_column(s: &mut String, o: &Option<String>)
    ensures
        final(s)@ == old(s)@ + text_column(opt_view(*o)),
{
    match o {
        Some(t) => s.append(t.as_str()),
        None => s.append("NA"),
    }
}

fn push_number_column(s: &mut String, o: Option<u8>)
    ensures
        final(s)@ == old(s)@ + number_column(o),
{
    match o {
        Some(v) => push_decimal(s, v as u64),
        None => s.append("NA"),
    }
}

fn opt_str_eq(a: &Option<String>, b: &Option<String>) -> (r: bool)
    ensures
        r == (opt_view(*a) == opt_view(*b)),
{
    match (a, b) {
        (Some(x), Some(y)) => *x == *y,
        (None, None) => true,
        _ => false,
    }
}

fn opt_str_clone(a: &Option<String>) -> (r: Option<String>)
    ensures
        opt_view(r) == opt_view(*a),
{
    match a {
        Some(x) => Some(x.clone()),
        None => None,
    }
}

impl Fli {
    /// The value of the merge key of kind `key`, if the identity has one.
    pub fn get_key(&self, key: MergeKey) -> (r: Option<String>)
        ensures
            opt_view(r) == key_of(self@, key),
    {
        match key {
            MergeKey::Sample => opt_str_clone(&self.sample),
            MergeKey::Barcode => opt_str_clone(&self.barcode),
            MergeKey::Library => opt_str_clone(&self.library),
            MergeKey::Fli => self.fli(),
            MergeKey::Default => None,
        }
    }

    /// The kind of merge key to use for this identity, if any.
    pub fn find_merge_key(&self) -> (r: Option<MergeKey>)
        ensures
            r == merge_key_of(self@),
    {
        if self.sample.is_some() {
            Some(MergeKey::Sample)
        } else if self.barcode.is_some() {
            Some(MergeKey::Barcode)
        } else if self.library.is_some() {
            Some(MergeKey::Library)
        } else if self.flowcell.is_some() && self.lane.is_some() && self.index.is_some() {
            Some(MergeKey::Fli)
        } else {
            None
        }
    }

    /// `flowcell_lane_index`, when all three are known.
    pub fn fli(&self) -> (r: Option<String>)
        ensures
            opt_view(r) == fli_text(self@),
    {
        match (&self.flowcell, self.lane, &self.index) {
            (Some(fc), Some(lane), Some(index)) => {
                let mut s = fc.clone();
                s.append("_");
                push_decimal(&mut s, lane as u64);
                s.append("_");
                s.append(index.as_str());
                proof {
                    reveal_strlit("_");
                    assert(s@ =~= fc@ + seq!['_'] + decimal(lane as nat) + seq!['_'] + index@);
                }
                Some(s)
            },
            _ => None,
        }
    }

    /// The identity's report columns.
    pub fn columns(&self) -> (r: String)
        ensures
            r@ == fli_columns(self@),
    {
        let mut s = String::new();
        push_text_column(&mut s, &self.sample);
        s.append("\t");
        push_text_column(&mut s, &self.barcode);
        s.append("\t");
        push_text_column(&mut s, &self.library);
        s.append("\t");
        push_text_column(&mut s, &self.flowcell);
        s.append("\t");
        push_text_column(&mut s, &self.index);
        s.append("\t");
        push_number_column(&mut s, self.lane);
        s.append("\t");
        push_number_column(&mut s, self.read_end);
        proof {
            assert(s@ =~= fli_columns(self@));
        }
        s
    }

    /// Keeps the fields on which `other` agrees and makes the others unknown.
    pub fn find_common(&mut self, other: &Fli)
        ensures
            final(self)@ == common(old(self)@, other@),
    {
        if !opt_str_eq(&self.sample, &other.sample) {
            self.sample = None;
        }
        if !opt_str_eq(&self.barcode, &other.barcode) {
            self.barcode = None;
        }
        if !opt_str_eq(&self.library, &other.library) {
            self.library = None;
        }
        if !opt_str_eq(&self.index, &other.index) {
            self.index = None;
        }
        if self.lane != other.lane {
            self.lane = None;
        }
        if !opt_str_eq(&self.flowcell, &other.flowcell) {
            self.flowcell = None;
        }
        if self.read_end != other.read_end {
            self.read_end = None;
        }
    }
}

} // verus!
