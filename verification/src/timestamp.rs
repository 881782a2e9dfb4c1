use vstd::prelude::*;

verus! {

/// A calendar timestamp with second precision, the explicit "now" that the
/// header decision and entry formatting work from.
pub struct Timestamp {
    pub year: u32,
    pub month: u32,
    pub day: u32,
    pub hour: u32,
    pub minute: u32,
    pub second: u32,
}

impl Timestamp {
    /// Field ranges that every timestamp handed to the library must satisfy.
    pub open spec fn wf(self) -> bool {
        self.year <= 9999 && 1 <= self.month <= 12 && 1 <= self.day <= 31 && self.hour <= 23
            && self.minute <= 59 && self.second <= 59
    }

    /// Builds a timestamp, rejecting out-of-range fields.
    pub fn new(year: u32, month: u32, day: u32, hour: u32, minute: u32, second: u32) -> (r:
        Option<Timestamp>)
        ensures
            match r {
                Some(t) => t.wf() && t == (Timestamp { year, month, day, hour, minute, second }),
                None => !(Timestamp { year, month, day, hour, minute, second }).wf(),
            },
    {
        if year <= 9999 && 1 <= month && month <= 12 && 1 <= day && day <= 31 && hour <= 23
            && minute <= 59 && second <= 59 {
            Some(Timestamp { year, month, day, hour, minute, second })
        } else {
            None
        }
    }
}

/// The ASCII digit byte for a decimal digit value.
pub open spec fn digit(d: int) -> u8 {
    (48 + d) as u8
}

/// A number rendered as exactly two zero-padded decimal digit bytes.
pub open spec fn dec2(n: int) -> Seq<u8> {
    seq![digit(n / 10 % 10), digit(n % 10)]
}

/// A number rendered as exactly four zero-padded decimal digit bytes.
pub open spec fn dec4(n: int) -> Seq<u8> {
    seq![digit(n / 1000 % 10), digit(n / 100 % 10), digit(n / 10 % 10), digit(n % 10)]
}

/// The ISO date of a timestamp: `YYYY-MM-DD`.
pub open spec fn date_seq(t: Timestamp) -> Seq<u8> {
    dec4(t.year as int) + seq![45u8] + dec2(t.month as int) + seq![45u8] + dec2(t.day as int)
}

/// The clock time of a timestamp: `HH:MM:SS`.
pub open spec fn time_seq(t: Timestamp) -> Seq<u8> {
    dec2(t.hour as int) + seq![58u8] + dec2(t.minute as int) + seq![58u8] + dec2(t.second as int)
}

/// The full timestamp as written on an entry line: `YYYY-MM-DD HH:MM:SS`.
pub open spec fn datetime_seq(t: Timestamp) -> Seq<u8> {
    date_seq(t) + seq![32u8] + time_seq(t)
}

/// Appends the two zero-padded digits of `n` to `v`.
pub fn push_dec2(v: &mut Vec<u8>, n: u32)
    requires
        n <= 99,
    ensures
        final(v)@ == old(v)@ + dec2(n as int),
{
    v.push((48 + n / 10) as u8);
    v.push((48 + n % 10) as u8);
    proof {
        assert(v@ =~= old(v)@ + dec2(n as int));
    }
}

/// Appends the four zero-padded digits of `n` to `v`.
pub fn push_dec4(v: &mut Vec<u8>, n: u32)
    requires
        n <= 9999,
    ensures
        final(v)@ == old(v)@ + dec4(n as int),
{
    v.push((48 + n / 1000) as u8);
    v.push((48 + n / 100 % 10) as u8);
    v.push((48 + n / 10 % 10) as u8);
    v.push((48 + n % 10) as u8);
    proof {
        assert(v@ =~= old(v)@ + dec4(n as int));
    }
}

/// The date of `t` as the bytes of `YYYY-MM-DD`.
pub fn date_bytes(t: &Timestamp) -> (r: Vec<u8>)
    requires
        t.wf(),
    ensures
        r@ == date_seq(*t),
{
    let mut v: Vec<u8> = Vec::new();
    push_dec4(&mut v, t.year);
    v.push(45);
    push_dec2(&mut v, t.month);
    v.push(45);
    push_dec2(&mut v, t.day);
    proof {
        assert(v@ =~= date_seq(*t));
    }
    v
}

/// The full timestamp of `t` as the bytes of `YYYY-MM-DD HH:MM:SS`.
pub fn datetime_bytes(t: &Timestamp) -> (r: Vec<u8>)
    requires
        t.wf(),
    ensures
        r@ == datetime_seq(*t),
{
    let mut v: Vec<u8> = date_bytes(t);
    v.push(32);
    push_dec2(&mut v, t.hour);
    v.push(58);
    push_dec2(&mut v, t.minute);
    v.push(58);
    push_dec2(&mut v, t.second);
    proof {
        assert(v@ =~= datetime_seq(*t));
    }
    v
}

} // verus!
