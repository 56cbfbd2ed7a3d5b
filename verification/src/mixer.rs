//! Setting hardware mixer controls: which card to address and the
//! `amixer cset` arguments for a control.  Running the command is left to
//! the caller.

use vstd::prelude::*;
use crate::text::{push_str, push_char, push_decimal_i64, string_from, decimal_int};

verus! {

/// The mixer card in use, if one is open.
pub struct AlsaMixerBackend {
    card: Option<String>,
}

/// Values joined by commas, in decimal.
pub open spec fn joined_values(vs: Seq<i32>) -> Seq<char>
    decreases vs.len(),
{
    if vs.len() == 0 {
        Seq::empty()
    } else if vs.len() == 1 {
        decimal_int(vs[0] as int)
    } else {
        joined_values(vs.drop_last()) + ","@ + decimal_int(vs.last() as int)
    }
}

/// The arguments of `amixer` that set control `numid` of `card` to `vs`.
pub open spec fn cset_args(card: Seq<char>, numid: i32, vs: Seq<i32>) -> Seq<Seq<char>> {
    seq!["-D"@, card, "cset"@, "numid="@ + decimal_int(numid as int), joined_values(vs)]
}

/// The card name of hardware card `hwid`.
pub open spec fn hw_card(hwid: i32) -> Seq<char> {
    "hw:"@ + decimal_int(hwid as int)
}

impl AlsaMixerBackend {
    /// The open card's name.
    pub closed spec fn spec_card(&self) -> Option<Seq<char>> {
        match self.card {
            Some(c) => Some(c@),
            None => None,
        }
    }

    /// No card open.
    pub fn new() -> (b: AlsaMixerBackend)
        ensures
            b.spec_card() is None,
    {
        AlsaMixerBackend { card: None }
    }

    /// Opens `card`.
    pub fn open(&mut self, card: &str)
        ensures
            final(self).spec_card() == Some(card@),
    {
        self.card = Some(string_from(card));
    }

    /// The arguments that set control `numid` to `values` on the open card.
    pub fn control_args(&self, numid: i32, values: &[i32]) -> (r: Result<Vec<String>, String>)
        ensures
            match self.spec_card() {
                Some(c) => r matches Ok(args) && args@.map_values(|s: String| s@) == cset_args(c, numid, values@),
                None => r matches Err(e) && e@ == "ALSA mixer is not open"@,
            },
    {
        let card = match &self.card {
            Some(c) => c,
            None => return Err(string_from("ALSA mixer is not open")),
        };
        let mut joined = String::new();
        let mut i: usize = 0;
        while i < values.len()
            invariant
                i <= values@.len(),
                joined@ == joined_values(values@.take(i as int)),
            decreases values@.len() - i,
        {
            if i > 0 {
                push_char(&mut joined, ',');
            }
            push_decimal_i64(&mut joined, values[i] as i64);
            proof {
                let t = values@.take(i + 1);
                assert(t.drop_last() =~= values@.take(i as int));
                reveal_strlit(",");
                if i == 0 {
                    assert(joined@ =~= joined_values(t));
                } else {
                    assert(joined@ =~= joined_values(t));
                }
            }
            i = i + 1;
        }
        assert(values@.take(values@.len() as int) =~= values@);
        let mut id = string_from("numid=");
        push_decimal_i64(&mut id, numid as i64);
        let mut args: Vec<String> = Vec::new();
        args.push(string_from("-D"));
        args.push(string_from(card.as_str()));
        args.push(string_from("cset"));
        args.push(id);
        args.push(joined);
        assert(args@.map_values(|s: String| s@) =~= cset_args(card@, numid, values@));
        Ok(args)
    }

    /// Closes the card.
    pub fn close(&mut self)
        ensures
            final(self).spec_card() is None,
    {
        self.card = None;
    }
}

/// The hardware mixer: its backend and the card it last addressed.
pub struct HardwareMixerInterface {
    backend: AlsaMixerBackend,
    prev_hwid: Option<i32>,
}

/// How many of the four values are set: up to the last one that is not -1.
pub open spec fn value_count(raw: Seq<i32>) -> int
    decreases raw.len(),
{
    if raw.len() == 0 {
        0
    } else if raw.last() != -1 {
        raw.len() as int
    } else {
        value_count(raw.drop_last())
    }
}

impl HardwareMixerInterface {
    /// The card last addressed.
    pub closed spec fn spec_prev_hwid(&self) -> Option<i32> {
        self.prev_hwid
    }

    /// The backend's card.
    pub closed spec fn spec_card(&self) -> Option<Seq<char>> {
        self.backend.spec_card()
    }

    pub fn new(backend: AlsaMixerBackend) -> (m: HardwareMixerInterface)
        ensures
            m.spec_prev_hwid() is None,
            m.spec_card() == backend.spec_card(),
    {
        HardwareMixerInterface { backend, prev_hwid: None }
    }

    pub fn backend(&self) -> (b: &AlsaMixerBackend)
        ensures
            b.spec_card() == self.spec_card(),
    {
        &self.backend
    }

    pub fn backend_mut(&mut self) -> (b: &mut AlsaMixerBackend)
        ensures
            b.spec_card() == old(self).spec_card(),
            final(self).spec_card() == final(b).spec_card(),
            final(self).spec_prev_hwid() == old(self).spec_prev_hwid(),
    {
        &mut self.backend
    }

    /// Sets control `numid` of card `hwid` to the values up to the last one
    /// that is not -1, reopening the card only when it changed.  Returns the
    /// `amixer` arguments to run.
    pub fn alsa_mixer_control_set(&mut self, hwid: i32, numid: i32, val1: i32, val2: i32, val3: i32, val4: i32) -> (r: Result<Vec<String>, String>)
        ensures
            ({
                let raw = seq![val1, val2, val3, val4];
                let n = value_count(raw);
                if numid < 0 {
                    r matches Err(e) && e@ == "invalid ALSA mixer setting: no numid"@ && final(self).spec_card()
                        == old(self).spec_card() && final(self).spec_prev_hwid() == old(self).spec_prev_hwid()
                } else if n == 0 {
                    r matches Err(e) && e@ == "invalid ALSA mixer setting: no control values"@ && final(self).spec_card()
                        == old(self).spec_card() && final(self).spec_prev_hwid() == old(self).spec_prev_hwid()
                } else {
                    let card = if old(self).spec_prev_hwid() == Some(hwid) {
                        old(self).spec_card()
                    } else {
                        Some(hw_card(hwid))
                    };
                    &&& final(self).spec_prev_hwid() == Some(hwid)
                    &&& final(self).spec_card() == card
                    &&& match card {
                        Some(c) => r matches Ok(args) && args@.map_values(|s: String| s@) == cset_args(c, numid, raw.take(n)),
                        None => r matches Err(e) && e@ == "ALSA mixer is not open"@,
                    }
                }
            }),
    {
        if numid < 0 {
            return Err(string_from("invalid ALSA mixer setting: no numid"));
        }
        let raw: [i32; 4] = [val1, val2, val3, val4];
        let ghost rs = seq![val1, val2, val3, val4];
        assert(raw@ =~= rs);
        let count: usize = if val4 != -1 {
            4
        } else if val3 != -1 {
            3
        } else if val2 != -1 {
            2
        } else if val1 != -1 {
            1
        } else {
            0
        };
        proof {
            assert(rs.drop_last() =~= seq![val1, val2, val3]);
            assert(seq![val1, val2, val3].drop_last() =~= seq![val1, val2]);
            assert(seq![val1, val2].drop_last() =~= seq![val1]);
            assert(seq![val1].drop_last() =~= Seq::<i32>::empty());
            reveal_with_fuel(value_count, 5);
        }
        assert(count == value_count(rs));
        if count == 0 {
            return Err(string_from("invalid ALSA mixer setting: no control values"));
        }
        let same = match self.prev_hwid {
            Some(h) => h == hwid,
            None => false,
        };
        if !same {
            self.backend.close();
            self.prev_hwid = None;
            let mut card = string_from("hw:");
            push_decimal_i64(&mut card, hwid as i64);
            self.backend.open(card.as_str());
            self.prev_hwid = Some(hwid);
        }
        let mut values: Vec<i32> = Vec::new();
        let mut i: usize = 0;
        while i < count
            invariant
                i <= count,
                count <= 4,
                raw@ == rs,
                values@ == rs.take(i as int),
            decreases count - i,
        {
            values.push(raw[i]);
            assert(values@ =~= rs.take(i + 1));
            i = i + 1;
        }
        self.backend.control_args(numid, values.as_slice())
    }

    /// Closes the card.
    pub fn close(&mut self)
        ensures
            final(self).spec_card() is None,
            final(self).spec_prev_hwid() is None,
    {
        self.backend.close();
        self.prev_hwid = None;
    }
}

} // verus!
