use vstd::prelude::*;
use crate::scientific::Scientific;

verus! {

/// Character-wise string equality, usable on any two string slices.
pub fn str_eq(a: &str, b: &str) -> (r: bool)
    ensures
        r == (a@ == b@),
{
    let n = a.unicode_len();
    let m = b.unicode_len();
    if n != m {
        return false;
    }
    let mut i: usize = 0;
    while i < n
        invariant
            0 <= i <= n,
            n == a@.len(),
            n == b@.len(),
            forall|j: int| 0 <= j < i ==> a@[j] == b@[j],
        decreases n - i,
    {
        if a.get_char(i) != b.get_char(i) {
            return false;
        }
        i = i + 1;
    }
    proof {
        assert(a@ =~= b@);
    }
    true
}

/// Lookup in an association list: the value of the first entry whose key
/// is `k`.
pub open spec fn seq_lookup(s: Seq<(String, String)>, k: Seq<char>) -> Option<Seq<char>>
    decreases s.len(),
{
    if s.len() == 0 {
        None
    } else if s[0].0@ == k {
        Some(s[0].1@)
    } else {
        seq_lookup(s.skip(1), k)
    }
}

/// A named-argument bag: string keys mapped to string values, in
/// insertion order.  Replaces a hash map so that the contents stay plain
/// sequences the contracts can speak about.
#[derive(Debug, PartialEq, Eq)]
pub struct ArgMap {
    pub entries: Vec<(String, String)>,
}

impl View for ArgMap {
    type V = Seq<(Seq<char>, Seq<char>)>;

    open spec fn view(&self) -> Seq<(Seq<char>, Seq<char>)> {
        self.entries@.map(|i: int, e: (String, String)| (e.0@, e.1@))
    }
}

impl ArgMap {
    pub fn new() -> (r: ArgMap)
        ensures
            r.entries@ =~= Seq::<(String, String)>::empty(),
    {
        ArgMap { entries: Vec::new() }
    }

    pub fn push(&mut self, key: String, value: String)
        ensures
            final(self).entries@ =~= old(self).entries@.push((key, value)),
    {
        self.entries.push((key, value));
    }

    pub fn len(&self) -> (r: usize)
        ensures
            r == self.entries@.len(),
    {
        self.entries.len()
    }

    /// The value of the first entry named `k`, if any.
    pub fn get<'a>(&'a self, k: &str) -> (r: Option<&'a String>)
        ensures
            match r {
                Some(v) => seq_lookup(self.entries@, k@) == Some(v@),
                None => seq_lookup(self.entries@, k@) is None,
            },
    {
        let n = self.entries.len();
        let mut i: usize = 0;
        proof {
            assert(self.entries@.skip(0) =~= self.entries@);
        }
        while i < n
            invariant
                0 <= i <= n,
                n == self.entries@.len(),
                seq_lookup(self.entries@, k@) == seq_lookup(self.entries@.skip(i as int), k@),
            decreases n - i,
        {
            let e = &self.entries[i];
            if str_eq(e.0.as_str(), k) {
                proof {
                    assert(self.entries@.skip(i as int)[0] == self.entries@[i as int]);
                }
                return Some(&self.entries[i].1);
            }
            proof {
                assert(self.entries@.skip(i as int)[0] == self.entries@[i as int]);
                assert(self.entries@.skip(i as int).skip(1) =~= self.entries@.skip(i + 1));
            }
            i = i + 1;
        }
        proof {
            assert(self.entries@.skip(n as int).len() == 0);
        }
        None
    }
}

impl Clone for ArgMap {
    fn clone(&self) -> (r: Self)
        ensures
            r.entries@ =~= self.entries@,
            r@ =~= self@,
    {
        let n = self.entries.len();
        let mut out: Vec<(String, String)> = Vec::new();
        let mut i: usize = 0;
        while i < n
            invariant
                0 <= i <= n,
                n == self.entries@.len(),
                out@.len() == i,
                forall|j: int| 0 <= j < i ==> out@[j] == self.entries@[j],
            decreases n - i,
        {
            let e = &self.entries[i];
            out.push((e.0.clone(), e.1.clone()));
            i = i + 1;
        }
        proof {
            assert(out@ =~= self.entries@);
        }
        ArgMap { entries: out }
    }
}

/// A two-component value decoded from `real`/`imag` string sub-fields.
#[derive(Debug, PartialEq, Eq)]
pub struct ComplexNumber {
    pub real: Scientific,
    pub imag: Scientific,
}

impl ComplexNumber {
    /// Both components are well-formed scientific numbers.
    pub open spec fn wf(self) -> bool {
        self.real.wf() && self.imag.wf()
    }

    /// The zero complex value, used when a limit column is wholly null.
    pub fn zero() -> (r: ComplexNumber)
        ensures
            r.real.mantissa@ =~= seq!['0'],
            r.real.exponent == 0,
            r.imag.mantissa@ =~= seq!['0'],
            r.imag.exponent == 0,
            r.wf(),
    {
        ComplexNumber { real: Scientific::zero(), imag: Scientific::zero() }
    }
}

impl Clone for ComplexNumber {
    fn clone(&self) -> (r: Self)
        ensures
            r == *self,
    {
        ComplexNumber { real: self.real.clone(), imag: self.imag.clone() }
    }
}

impl Default for ComplexNumber {
    fn default() -> (r: Self)
        ensures
            r.real.mantissa@ =~= seq!['0'],
            r.real.exponent == 0,
            r.imag.mantissa@ =~= seq!['0'],
            r.imag.exponent == 0,
            r.wf(),
    {
        ComplexNumber::zero()
    }
}

/// One row of a series' nested `computed` list: iteration index, partial
/// sum, and deviation from the limit.
#[derive(Debug, PartialEq, Eq)]
pub struct SeriesPoint {
    pub n: i32,
    pub value: ComplexNumber,
    pub deviation: Scientific,
}

impl Clone for SeriesPoint {
    fn clone(&self) -> (r: Self)
        ensures
            r == *self,
    {
        SeriesPoint { n: self.n, value: self.value.clone(), deviation: self.deviation.clone() }
    }
}

/// A diagnostic tied to an iteration.
#[derive(Debug, PartialEq, Eq)]
pub struct ErrorInfo {
    pub n: i32,
    pub message: String,
}

impl Clone for ErrorInfo {
    fn clone(&self) -> (r: Self)
        ensures
            r == *self,
    {
        ErrorInfo { n: self.n, message: self.message.clone() }
    }
}

/// A named occurrence tied to an iteration.
#[derive(Debug, PartialEq, Eq)]
pub struct EventInfo {
    pub n: i32,
    pub name: String,
    pub description: String,
}

impl Clone for EventInfo {
    fn clone(&self) -> (r: Self)
        ensures
            r == *self,
    {
        EventInfo { n: self.n, name: self.name.clone(), description: self.description.clone() }
    }
}

/// One acceleration-method output for one iteration; absent rows mean the
/// method produced nothing there.
#[derive(Debug, PartialEq, Eq)]
pub struct AccelPoint {
    pub value: ComplexNumber,
    pub deviation: Scientific,
}

impl Clone for AccelPoint {
    fn clone(&self) -> (r: Self)
        ensures
            r == *self,
    {
        AccelPoint { value: self.value.clone(), deviation: self.deviation.clone() }
    }
}

/// Identity of an acceleration method: name, order parameter, extra
/// arguments.
#[derive(Debug, PartialEq, Eq)]
pub struct AccelInfo {
    pub name: String,
    pub m_value: i32,
    pub additional_args: ArgMap,
}

/// Mathematical content of an [`AccelInfo`].
pub ghost struct AccelInfoView {
    pub name: Seq<char>,
    pub m_value: int,
    pub additional_args: Seq<(Seq<char>, Seq<char>)>,
}

impl View for AccelInfo {
    type V = AccelInfoView;

    open spec fn view(&self) -> AccelInfoView {
        AccelInfoView {
            name: self.name@,
            m_value: self.m_value as int,
            additional_args: self.additional_args@,
        }
    }
}

impl Clone for AccelInfo {
    fn clone(&self) -> (r: Self)
        ensures
            r@ =~= self@,
            r.additional_args.entries@ =~= self.additional_args.entries@,
    {
        AccelInfo {
            name: self.name.clone(),
            m_value: self.m_value,
            additional_args: self.additional_args.clone(),
        }
    }
}

/// One acceleration method applied to one series: its identity, its
/// per-iteration outputs, and its diagnostics.
#[derive(Debug, PartialEq, Eq)]
pub struct AccelRecord {
    pub accel_info: AccelInfo,
    pub computed: Vec<Option<AccelPoint>>,
    pub errors: Vec<ErrorInfo>,
    pub events: Vec<EventInfo>,
}

/// Mathematical content of an [`AccelRecord`].
pub ghost struct AccelRecordView {
    pub accel_info: AccelInfoView,
    pub computed: Seq<Option<AccelPoint>>,
    pub errors: Seq<ErrorInfo>,
    pub events: Seq<EventInfo>,
}

impl View for AccelRecord {
    type V = AccelRecordView;

    open spec fn view(&self) -> AccelRecordView {
        AccelRecordView {
            accel_info: self.accel_info@,
            computed: self.computed@,
            errors: self.errors@,
            events: self.events@,
        }
    }
}

impl Clone for AccelRecord {
    fn clone(&self) -> (r: Self)
        ensures
            r@ =~= self@,
    {
        AccelRecord {
            accel_info: self.accel_info.clone(),
            computed: clone_opt_accel_points(&self.computed),
            errors: clone_error_infos(&self.errors),
            events: clone_event_infos(&self.events),
        }
    }
}

/// One decoded series: identity, parameterisation, limit, and partial
/// sums.
#[derive(Debug, PartialEq, Eq)]
pub struct SeriesRecord {
    pub precision: String,
    pub series_id: i32,
    pub name: String,
    pub arguments: ArgMap,
    pub series_limit: ComplexNumber,
    pub computed: Vec<SeriesPoint>,
}

/// Mathematical content of a [`SeriesRecord`].
pub ghost struct SeriesRecordView {
    pub precision: Seq<char>,
    pub series_id: int,
    pub name: Seq<char>,
    pub arguments: Seq<(Seq<char>, Seq<char>)>,
    pub series_limit: ComplexNumber,
    pub computed: Seq<SeriesPoint>,
}

impl View for SeriesRecord {
    type V = SeriesRecordView;

    open spec fn view(&self) -> SeriesRecordView {
        SeriesRecordView {
            precision: self.precision@,
            series_id: self.series_id as int,
            name: self.name@,
            arguments: self.arguments@,
            series_limit: self.series_limit,
            computed: self.computed@,
        }
    }
}

impl Clone for SeriesRecord {
    fn clone(&self) -> (r: Self)
        ensures
            r@ =~= self@,
    {
        SeriesRecord {
            precision: self.precision.clone(),
            series_id: self.series_id,
            name: self.name.clone(),
            arguments: self.arguments.clone(),
            series_limit: self.series_limit.clone(),
            computed: clone_series_points(&self.computed),
        }
    }
}

/// One series together with every acceleration method applied to it.
pub type SeriesData = (SeriesRecord, Vec<AccelRecord>);

pub fn clone_series_points(v: &Vec<SeriesPoint>) -> (r: Vec<SeriesPoint>)
    ensures
        r@ =~= v@,
{
    let n = v.len();
    let mut out: Vec<SeriesPoint> = Vec::new();
    let mut i: usize = 0;
    while i < n
        invariant
            0 <= i <= n,
            n == v@.len(),
            out@.len() == i,
            forall|j: int| 0 <= j < i ==> out@[j] == v@[j],
        decreases n - i,
    {
        out.push(v[i].clone());
        i = i + 1;
    }
    out
}

fn clone_opt_accel_points(v: &Vec<Option<AccelPoint>>) -> (r: Vec<Option<AccelPoint>>)
    ensures
        r@ =~= v@,
{
    let n = v.len();
    let mut out: Vec<Option<AccelPoint>> = Vec::new();
    let mut i: usize = 0;
    while i < n
        invariant
            0 <= i <= n,
            n == v@.len(),
            out@.len() == i,
            forall|j: int| 0 <= j < i ==> out@[j] == v@[j],
        decreases n - i,
    {
        match &v[i] {
            Some(p) => {
                let c = p.clone();
                assert(v@[i as int] == Some(*p));
                out.push(Some(c));
                assert(out@[i as int] == v@[i as int]);
            },
            None => {
                assert(v@[i as int] == None::<AccelPoint>);
                out.push(None);
                assert(out@[i as int] == v@[i as int]);
            },
        }
        i = i + 1;
    }
    out
}

fn clone_error_infos(v: &Vec<ErrorInfo>) -> (r: Vec<ErrorInfo>)
    ensures
        r@ =~= v@,
{
    let n = v.len();
    let mut out: Vec<ErrorInfo> = Vec::new();
    let mut i: usize = 0;
    while i < n
        invariant
            0 <= i <= n,
            n == v@.len(),
            out@.len() == i,
            forall|j: int| 0 <= j < i ==> out@[j] == v@[j],
        decreases n - i,
    {
        out.push(v[i].clone());
        i = i + 1;
    }
    out
}

fn clone_event_infos(v: &Vec<EventInfo>) -> (r: Vec<EventInfo>)
    ensures
        r@ =~= v@,
{
    let n = v.len();
    let mut out: Vec<EventInfo> = Vec::new();
    let mut i: usize = 0;
    while i < n
        invariant
            0 <= i <= n,
            n == v@.len(),
            out@.len() == i,
            forall|j: int| 0 <= j < i ==> out@[j] == v@[j],
        decreases n - i,
    {
        out.push(v[i].clone());
        i = i + 1;
    }
    out
}

/// Content of a sequence of acceleration records, record by record.
pub open spec fn accel_records_view(s: Seq<AccelRecord>) -> Seq<AccelRecordView> {
    s.map(|i: int, a: AccelRecord| a@)
}

/// Clone a whole vector of acceleration records.
pub fn clone_accel_records(v: &Vec<AccelRecord>) -> (r: Vec<AccelRecord>)
    ensures
        accel_records_view(r@) =~= accel_records_view(v@),
        r@.len() == v@.len(),
{
    let n = v.len();
    let mut out: Vec<AccelRecord> = Vec::new();
    let mut i: usize = 0;
    while i < n
        invariant
            0 <= i <= n,
            n == v@.len(),
            out@.len() == i,
            forall|j: int| 0 <= j < i ==> (#[trigger] out@[j])@ == v@[j]@,
        decreases n - i,
    {
        out.push(v[i].clone());
        i = i + 1;
    }
    out
}

} // verus!
