//! Seed resolution: parsing a `key=value` configuration text and applying a
//! coordinator's synchronisation response, producing the `(host, port,
//! node, epoch)` tuple from which generators are fractured.

use vstd::prelude::*;

use crate::error::FractalError;
use crate::flake::FlakeGenerator;
use crate::text::{dec_val, find, is_dec, trim};

verus! {

/// The resolved deployment parameters: where the coordinator lives, which
/// node this is, and the shared epoch (milliseconds).
#[derive(Debug)]
pub struct FlakeSeed {
    pub sync_host: String,
    pub sync_port: u16,
    pub node_id: u64,
    pub epoch: u128,
}

/// The mathematical content of a seed.
#[verifier::ext_equal]
pub ghost struct SeedModel {
    pub host: Seq<char>,
    pub port: u16,
    pub node: u64,
    pub epoch: u128,
}

impl View for FlakeSeed {
    type V = SeedModel;

    open spec fn view(&self) -> SeedModel {
        SeedModel {
            host: self.sync_host@,
            port: self.sync_port,
            node: self.node_id,
            epoch: self.epoch,
        }
    }
}

/// A configuration error at the specification level: which failure, at which
/// 1-based line, and — for a field whose value does not parse — the trimmed
/// offending text.
pub ghost enum ConfigErr {
    MissingEquals { line: nat },
    InvalidPort { line: nat, value: Seq<char> },
    InvalidNode { line: nat, value: Seq<char> },
    InvalidEpoch { line: nat, value: Seq<char> },
}

/// Whether the executable error `e` reports exactly the specification-level
/// configuration error `m`.
pub open spec fn config_err_matches(e: FractalError, m: ConfigErr) -> bool {
    match m {
        ConfigErr::MissingEquals { line } => e matches FractalError::MissingEquals { line: l }
            && l == line,
        ConfigErr::InvalidPort { line, value } => e matches FractalError::InvalidPort {
            line: l,
            value: v,
        } && l == line && v@ == value,
        ConfigErr::InvalidNode { line, value } => e matches FractalError::InvalidNode {
            line: l,
            value: v,
        } && l == line && v@ == value,
        ConfigErr::InvalidEpoch { line, value } => e matches FractalError::InvalidEpoch {
            line: l,
            value: v,
        } && l == line && v@ == value,
    }
}

/// The seed every configuration starts from: all fields at their zero
/// defaults. A zero-valued field is indistinguishable from an absent one.
pub open spec fn empty_seed() -> SeedModel {
    SeedModel { host: Seq::empty(), port: 0, node: 0, epoch: 0 }
}

/// The lines of a configuration text: the maximal newline-free runs, in
/// order. A trailing newline does not open a final empty line.
pub open spec fn lines_of(s: Seq<char>) -> Seq<Seq<char>>
    decreases s.len(),
{
    if s.len() == 0 {
        Seq::empty()
    } else {
        let j = find(s, '\n');
        if 0 <= j < s.len() {
            seq![s.subrange(0, j)] + lines_of(s.subrange(j + 1, s.len() as int))
        } else {
            seq![s]
        }
    }
}

/// What one configuration line does to the seed accumulated so far: at the
/// first `=` the line splits into a key and a value, both trimmed; the four
/// recognized keys overwrite their field (a numeric field only if the value
/// is decimal digits in range, else the error for that field), any other key
/// is ignored, and a line without `=` is itself an error.
pub open spec fn line_result(acc: SeedModel, raw: Seq<char>, ln: nat) -> Result<
    SeedModel,
    ConfigErr,
> {
    let e = find(raw, '=');
    if e == raw.len() {
        Err(ConfigErr::MissingEquals { line: ln })
    } else {
        let key = trim(raw.subrange(0, e));
        let val = trim(raw.subrange(e + 1, raw.len() as int));
        if key == "host"@ {
            Ok(SeedModel { host: val, ..acc })
        } else if key == "port"@ {
            if is_dec(val) && dec_val(val) <= u16::MAX {
                Ok(SeedModel { port: dec_val(val) as u16, ..acc })
            } else {
                Err(ConfigErr::InvalidPort { line: ln, value: val })
            }
        } else if key == "node"@ {
            if is_dec(val) && dec_val(val) <= u64::MAX {
                Ok(SeedModel { node: dec_val(val) as u64, ..acc })
            } else {
                Err(ConfigErr::InvalidNode { line: ln, value: val })
            }
        } else if key == "epoch"@ {
            if is_dec(val) && dec_val(val) <= u128::MAX {
                Ok(SeedModel { epoch: dec_val(val) as u128, ..acc })
            } else {
                Err(ConfigErr::InvalidEpoch { line: ln, value: val })
            }
        } else {
            Ok(acc)
        }
    }
}

/// Folds `line_result` over the lines, counting them from `ln`, stopping at
/// the first error. Later occurrences of a key overwrite earlier ones.
pub open spec fn parse_lines(ls: Seq<Seq<char>>, ln: nat, acc: SeedModel) -> Result<
    SeedModel,
    ConfigErr,
>
    decreases ls.len(),
{
    if ls.len() == 0 {
        Ok(acc)
    } else {
        match line_result(acc, ls[0], ln) {
            Ok(a) => parse_lines(ls.drop_first(), ln + 1, a),
            Err(e) => Err(e),
        }
    }
}

/// The meaning of a whole configuration text: its lines folded over the
/// zero-default seed, lines counted from 1.
pub open spec fn parse_config(s: Seq<char>) -> Result<SeedModel, ConfigErr> {
    parse_lines(lines_of(s), 1, empty_seed())
}

/// The "epoch" field of a coordinator response: `Some` of that field's text
/// when `body` is a JSON document whose top level is an object carrying a
/// string field named "epoch", `None` otherwise. A function of the body text
/// alone.
pub uninterp spec fn epoch_field_of(body: Seq<char>) -> Option<Seq<char>>;

/// Relies on serde_json::from_str (serde_json::Value::get and Value::as_str
/// convert its result): whether a body is a JSON object with a string field
/// "epoch", and that field's text, depend on the body text alone; the pair
/// is named `epoch_field_of`.
#[verifier::external_body]
fn extract_epoch_field(body: &str) -> (r: Option<String>)
    ensures
        match (r, epoch_field_of(body@)) {
            (Some(s), Some(t)) => s@ == t,
            (None, None) => true,
            _ => false,
        },
{
    let v: serde_json::Value = match serde_json::from_str(body) {
        Ok(v) => v,
        Err(_) => {
            return None;
        },
    };
    match v.get("epoch") {
        Some(serde_json::Value::String(s)) => Some(s.clone()),
        _ => None,
    }
}

impl FlakeSeed {
    /// A seed pointing at the given coordinator, with node and epoch still at
    /// their zero defaults.
    pub fn new(sync_host: String, sync_port: u16) -> (s: FlakeSeed)
        ensures
            s@.host == sync_host@,
            s@.port == sync_port,
            s@.node == 0,
            s@.epoch == 0,
    {
        FlakeSeed { sync_host, sync_port, node_id: 0, epoch: 0 }
    }

    /// Parses a `key=value` configuration text into a seed, exactly as
    /// [`parse_config`] reads it: one pair per line, later keys overwriting
    /// earlier ones, unrecognized keys ignored, missing keys left at their
    /// zero defaults, and the first malformed line reported with its 1-based
    /// number.
    pub fn load(contents: &str) -> (r: Result<FlakeSeed, FractalError>)
        ensures
            match parse_config(contents@) {
                Ok(m) => r matches Ok(s) && s@ == m,
                Err(me) => r matches Err(e) && config_err_matches(e, me),
            },
    {
        let n = contents.unicode_len();
        let mut seed = FlakeSeed::new(String::new(), 0);
        proof {
            assert(seed@ =~= empty_seed());
            assert(contents@.subrange(0, n as int) =~= contents@);
        }
        let mut i: usize = 0;
        let mut line_number: usize = 1;
        while i < n
            invariant
                n == contents@.len(),
                i <= n,
                1 <= line_number,
                // every counted line held an `=` and ended in a newline, so
                // it consumed at least two characters
                2 * (line_number as int - 1) <= i as int,
                parse_lines(
                    lines_of(contents@.subrange(i as int, n as int)),
                    line_number as nat,
                    seed@,
                ) == parse_config(contents@),
            decreases n - i,
        {
            let ghost rest = contents@.subrange(i as int, n as int);
            let ghost acc0 = seed@;
            let j = crate::text::find_from(contents, i, n, '\n');
            let ghost raw = contents@.subrange(i as int, j as int);
            let ghost tail = if j < n {
                lines_of(contents@.subrange(j + 1, n as int))
            } else {
                Seq::<Seq<char>>::empty()
            };
            proof {
                assert forall|k: int| 0 <= k < j - i implies rest[k] != '\n' by {
                    assert(rest[k] == contents@[i + k]);
                }
                crate::text::lemma_find_is(rest, '\n', j - i);
                assert(rest.subrange(0, j - i) =~= raw);
                if j < n {
                    assert(rest.subrange(j - i + 1, rest.len() as int) =~= contents@.subrange(
                        j + 1,
                        n as int,
                    ));
                } else {
                    assert(raw =~= rest);
                }
                assert(lines_of(rest) =~= seq![raw] + tail);
                assert((seq![raw] + tail)[0] == raw);
                assert((seq![raw] + tail).drop_first() =~= tail);
            }
            let e = crate::text::find_from(contents, i, j, '=');
            proof {
                assert forall|k: int| 0 <= k < e - i implies raw[k] != '=' by {
                    assert(raw[k] == contents@[i + k]);
                }
                crate::text::lemma_find_is(raw, '=', e - i);
            }
            if e == j {
                return Err(FractalError::MissingEquals { line: line_number });
            }
            let (ks, ke) = crate::text::trim_range(contents, i, e);
            let (vs, ve) = crate::text::trim_range(contents, e + 1, j);
            proof {
                assert(raw.subrange(0, e - i) =~= contents@.subrange(i as int, e as int));
                assert(raw.subrange(e - i + 1, raw.len() as int) =~= contents@.subrange(
                    e + 1,
                    j as int,
                ));
            }
            let key = contents.substring_char(ks, ke);
            let val = contents.substring_char(vs, ve);
            let ghost key_spec = trim(raw.subrange(0, e - i));
            let ghost val_spec = trim(raw.subrange(e - i + 1, raw.len() as int));
            assert(key@ == key_spec);
            assert(val@ == val_spec);
            if crate::text::str_eq(key, "host") {
                seed.sync_host = val.to_owned();
            } else if crate::text::str_eq(key, "port") {
                match crate::text::parse_u16(val) {
                    Some(p) => {
                        seed.sync_port = p;
                    },
                    None => {
                        return Err(
                            FractalError::InvalidPort { line: line_number, value: val.to_owned() },
                        );
                    },
                }
            } else if crate::text::str_eq(key, "node") {
                match crate::text::parse_u64(val) {
                    Some(p) => {
                        seed.node_id = p;
                    },
                    None => {
                        return Err(
                            FractalError::InvalidNode { line: line_number, value: val.to_owned() },
                        );
                    },
                }
            } else if crate::text::str_eq(key, "epoch") {
                match crate::text::parse_u128(val) {
                    Some(p) => {
                        seed.epoch = p;
                    },
                    None => {
                        return Err(
                            FractalError::InvalidEpoch { line: line_number, value: val.to_owned() },
                        );
                    },
                }
            }
            proof {
                assert(line_result(acc0, raw, line_number as nat) == Ok::<SeedModel, ConfigErr>(
                    seed@,
                )) by {
                    assert(seed@ =~= line_result(acc0, raw, line_number as nat)->Ok_0);
                }
            }
            if j < n {
                // the spec counts the next line whether or not the text goes
                // on; the counter is needed only when it does
                line_number += 1;
                i = j + 1;
            } else {
                i = n;
                proof {
                    assert(contents@.subrange(n as int, n as int) =~= Seq::<char>::empty());
                    assert(tail =~= Seq::<Seq<char>>::empty());
                    assert(parse_lines(tail, line_number as nat + 1, seed@) == Ok::<
                        SeedModel,
                        ConfigErr,
                    >(seed@));
                    assert(parse_lines(
                        lines_of(contents@.subrange(n as int, n as int)),
                        line_number as nat,
                        seed@,
                    ) == Ok::<SeedModel, ConfigErr>(seed@));
                }
            }
        }
        proof {
            assert(contents@.subrange(i as int, n as int) =~= Seq::<char>::empty());
        }
        Ok(seed)
    }

    /// Applies a coordinator synchronisation response body: when the body is
    /// a JSON object with a string field "epoch" holding an unsigned 128-bit
    /// decimal, the seed's epoch is replaced by that value. A body of the
    /// wrong shape and an epoch field that is not such a decimal are
    /// distinct errors; on either, the seed is left unchanged.
    pub fn apply_sync_response(&mut self, body: &str) -> (r: Result<(), FractalError>)
        ensures
            final(self).sync_host@ == old(self).sync_host@,
            final(self).sync_port == old(self).sync_port,
            final(self).node_id == old(self).node_id,
            match epoch_field_of(body@) {
                None => r matches Err(FractalError::DeserialisationError) && final(self).epoch
                    == old(self).epoch,
                Some(t) => if is_dec(t) && dec_val(t) <= u128::MAX {
                    r is Ok && final(self).epoch == dec_val(t)
                } else {
                    r matches Err(FractalError::InvalidSyncEpochRecived) && final(self).epoch
                        == old(self).epoch
                },
            },
    {
        match extract_epoch_field(body) {
            None => Err(FractalError::DeserialisationError),
            Some(s) => match crate::text::parse_u128(s.as_str()) {
                Some(v) => {
                    self.epoch = v;
                    Ok(())
                },
                None => Err(FractalError::InvalidSyncEpochRecived),
            },
        }
    }

    /// Binds this seed and a caller-chosen thread id into a fresh generator.
    pub fn fracture(&self, thread_id: u64) -> (g: FlakeGenerator)
        ensures
            g.epoch == self.epoch,
            g.node_id == self.node_id,
            g.thread_id == thread_id,
            g.sequence == 0,
            g.last_time == 0,
    {
        FlakeGenerator::new(self.epoch, self.node_id, thread_id)
    }
}

} // verus!
