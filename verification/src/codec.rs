//! The serialized form of a [`VmConfig`].
//!
//! The config file is a versionless character document: a one-character OS
//! tag, then each field in a fixed order. Numbers are decimal digits closed
//! by `';'`; strings are length-prefixed, so any character may appear in
//! them; options open with `'n'` (absent) or `'s'` (present). Parsing an
//! encoded config yields the same value back, which is proved here.

use vstd::prelude::*;

use crate::digits::enc_u64;
use crate::digits::lemma_p_u64_enc;
use crate::digits::p_u64;
use crate::digits::push_u64;
use crate::digits::take_u64;
use crate::exception::Exception;
use crate::vm_config::Os;
use crate::vm_config::Share;
use crate::vm_config::VmConfig;

verus! {

/// The mathematical value of one sharing entry.
pub ghost struct ShareModel {
    pub name: Seq<char>,
    pub path: Seq<char>,
}

/// The mathematical value of a [`VmConfig`]: what the contracts speak of.
pub ghost struct ConfigModel {
    pub os: Os,
    pub cpu: nat,
    pub memory: nat,
    pub mac_address: Seq<char>,
    pub sharing: Seq<ShareModel>,
    pub rosetta: Option<bool>,
    pub hardware_model: Option<Seq<char>>,
    pub machine_identifier: Option<Seq<char>>,
}

impl ConfigModel {
    /// The OS-field-group invariant, stated of the model.
    pub open spec fn wf(&self) -> bool {
        match self.os {
            Os::Linux => self.rosetta is Some && self.hardware_model is None
                && self.machine_identifier is None,
            Os::MacOs => self.rosetta is None && self.hardware_model is Some
                && self.machine_identifier is Some,
        }
    }
}

impl Share {
    pub open spec fn model(&self) -> ShareModel {
        ShareModel { name: self.name@, path: self.path@ }
    }
}

impl VmConfig {
    pub open spec fn model(&self) -> ConfigModel {
        ConfigModel {
            os: self.os,
            cpu: self.cpu as nat,
            memory: self.memory as nat,
            mac_address: self.mac_address@,
            sharing: self.sharing@.map_values(|sh: Share| sh.model()),
            rosetta: self.rosetta,
            hardware_model: match self.hardware_model {
                Some(ref s) => Some(s@),
                None => None,
            },
            machine_identifier: match self.machine_identifier {
                Some(ref s) => Some(s@),
                None => None,
            },
        }
    }
}

// ---------------------------------------------------------------- encoding
pub open spec fn enc_os(os: Os) -> Seq<char> {
    match os {
        Os::Linux => seq!['l'],
        Os::MacOs => seq!['m'],
    }
}

pub open spec fn enc_string(t: Seq<char>) -> Seq<char> {
    enc_u64(t.len()) + t
}

pub open spec fn enc_opt_bool(b: Option<bool>) -> Seq<char> {
    match b {
        None => seq!['n'],
        Some(true) => seq!['s', 't'],
        Some(false) => seq!['s', 'f'],
    }
}

pub open spec fn enc_opt_string(o: Option<Seq<char>>) -> Seq<char> {
    match o {
        None => seq!['n'],
        Some(t) => seq!['s'] + enc_string(t),
    }
}

pub open spec fn enc_share_items(sh: Seq<ShareModel>) -> Seq<char>
    decreases sh.len(),
{
    if sh.len() == 0 {
        Seq::<char>::empty()
    } else {
        enc_string(sh[0].name) + enc_string(sh[0].path) + enc_share_items(sh.drop_first())
    }
}

pub open spec fn enc_shares(sh: Seq<ShareModel>) -> Seq<char> {
    enc_u64(sh.len()) + enc_share_items(sh)
}

/// The whole document for a config value.
pub open spec fn spec_encode_config(m: ConfigModel) -> Seq<char> {
    enc_os(m.os) + enc_u64(m.cpu) + enc_u64(m.memory) + enc_string(m.mac_address) + enc_shares(
        m.sharing,
    ) + enc_opt_bool(m.rosetta) + enc_opt_string(m.hardware_model) + enc_opt_string(
        m.machine_identifier,
    )
}

/// Every number written in the document fits the number encoding.
pub open spec fn shares_encodable(sh: Seq<ShareModel>) -> bool {
    sh.len() <= u64::MAX && forall|i: int|
        0 <= i < sh.len() ==> (#[trigger] sh[i]).name.len() <= u64::MAX && sh[i].path.len()
            <= u64::MAX
}

pub open spec fn config_encodable(m: ConfigModel) -> bool {
    &&& m.cpu <= u64::MAX
    &&& m.memory <= u64::MAX
    &&& m.mac_address.len() <= u64::MAX
    &&& shares_encodable(m.sharing)
    &&& (m.hardware_model matches Some(t) ==> t.len() <= u64::MAX)
    &&& (m.machine_identifier matches Some(t) ==> t.len() <= u64::MAX)
}

// ----------------------------------------------------------------- parsing
pub open spec fn p_os(s: Seq<char>, i: int) -> Option<(Os, int)> {
    if 0 <= i < s.len() {
        if s[i] == 'l' {
            Some((Os::Linux, i + 1))
        } else if s[i] == 'm' {
            Some((Os::MacOs, i + 1))
        } else {
            None
        }
    } else {
        None
    }
}

pub open spec fn p_string(s: Seq<char>, i: int) -> Option<(Seq<char>, int)> {
    match p_u64(s, i) {
        Some((len, j)) => if j + len <= s.len() {
            Some((s.subrange(j, j + len), j + len))
        } else {
            None
        },
        None => None,
    }
}

pub open spec fn p_opt_bool(s: Seq<char>, i: int) -> Option<(Option<bool>, int)> {
    if 0 <= i < s.len() {
        if s[i] == 'n' {
            Some((None, i + 1))
        } else if s[i] == 's' && i + 1 < s.len() && s[i + 1] == 't' {
            Some((Some(true), i + 2))
        } else if s[i] == 's' && i + 1 < s.len() && s[i + 1] == 'f' {
            Some((Some(false), i + 2))
        } else {
            None
        }
    } else {
        None
    }
}

pub open spec fn p_opt_string(s: Seq<char>, i: int) -> Option<(Option<Seq<char>>, int)> {
    if 0 <= i < s.len() {
        if s[i] == 'n' {
            Some((None, i + 1))
        } else if s[i] == 's' {
            match p_string(s, i + 1) {
                Some((t, j)) => Some((Some(t), j)),
                None => None,
            }
        } else {
            None
        }
    } else {
        None
    }
}

pub open spec fn p_share_items(s: Seq<char>, i: int, count: nat) -> Option<(Seq<ShareModel>, int)>
    decreases count,
{
    if count == 0 {
        Some((Seq::<ShareModel>::empty(), i))
    } else {
        match p_string(s, i) {
            Some((name, j)) => match p_string(s, j) {
                Some((path, k)) => match p_share_items(s, k, (count - 1) as nat) {
                    Some((rest, end)) => Some((seq![ShareModel { name, path }] + rest, end)),
                    None => None,
                },
                None => None,
            },
            None => None,
        }
    }
}

pub open spec fn p_shares(s: Seq<char>, i: int) -> Option<(Seq<ShareModel>, int)> {
    match p_u64(s, i) {
        Some((count, j)) => p_share_items(s, j, count),
        None => None,
    }
}

/// Parses a whole document; `Some` only when every field parses, the
/// document ends exactly after the last one, and the OS-field-group
/// invariant holds of what was read.
pub open spec fn spec_parse_config(s: Seq<char>) -> Option<ConfigModel> {
    match p_os(s, 0) {
        Some((os, i1)) => match p_u64(s, i1) {
            Some((cpu, i2)) => match p_u64(s, i2) {
                Some((memory, i3)) => match p_string(s, i3) {
                    Some((mac_address, i4)) => match p_shares(s, i4) {
                        Some((sharing, i5)) => match p_opt_bool(s, i5) {
                            Some((rosetta, i6)) => match p_opt_string(s, i6) {
                                Some((hardware_model, i7)) => match p_opt_string(s, i7) {
                                    Some((machine_identifier, i8)) => if i8 == s.len() {
                                        let m = ConfigModel {
                                            os,
                                            cpu,
                                            memory,
                                            mac_address,
                                            sharing,
                                            rosetta,
                                            hardware_model,
                                            machine_identifier,
                                        };
                                        if m.wf() {
                                            Some(m)
                                        } else {
                                            None
                                        }
                                    } else {
                                        None
                                    },
                                    None => None,
                                },
                                None => None,
                            },
                            None => None,
                        },
                        None => None,
                    },
                    None => None,
                },
                None => None,
            },
            None => None,
        },
        None => None,
    }
}

// ----------------------------------------------------- round-trip lemmas
proof fn lemma_p_string_enc(s: Seq<char>, i: int, t: Seq<char>)
    requires
        0 <= i,
        t.len() <= u64::MAX,
        i + enc_string(t).len() <= s.len(),
        s.subrange(i, i + enc_string(t).len() as int) == enc_string(t),
    ensures
        p_string(s, i) == Some((t, i + enc_string(t).len())),
{
    let np = enc_u64(t.len()).len() as int;
    let total = enc_string(t).len() as int;
    assert(s.subrange(i, i + np) =~= enc_u64(t.len())) by {
        assert forall|k: int| 0 <= k < np implies s.subrange(i, i + np)[k] == enc_u64(t.len())[k] by {
            assert(s.subrange(i, i + np)[k] == s.subrange(i, i + total)[k]);
            assert(enc_string(t)[k] == enc_u64(t.len())[k]);
        }
    }
    lemma_p_u64_enc(s, i, t.len());
    let j = i + np;
    assert(s.subrange(j, j + t.len() as int) =~= t) by {
        assert forall|k: int| 0 <= k < t.len() implies s.subrange(j, j + t.len() as int)[k] == t[k] by {
            assert(s.subrange(j, j + t.len() as int)[k] == s.subrange(i, i + total)[np + k]);
            assert(enc_string(t)[np + k] == t[k]);
        }
    }
}

proof fn lemma_p_opt_string_enc(s: Seq<char>, i: int, o: Option<Seq<char>>)
    requires
        0 <= i,
        (o matches Some(t) ==> t.len() <= u64::MAX),
        i + enc_opt_string(o).len() <= s.len(),
        s.subrange(i, i + enc_opt_string(o).len() as int) == enc_opt_string(o),
    ensures
        p_opt_string(s, i) == Some((o, i + enc_opt_string(o).len())),
{
    let total = enc_opt_string(o).len() as int;
    match o {
        None => {
            assert(s[i] == s.subrange(i, i + total)[0]);
        },
        Some(t) => {
            assert(s[i] == s.subrange(i, i + total)[0]);
            assert(s[i] == 's');
            let et = enc_string(t);
            assert(s.subrange(i + 1, i + 1 + et.len() as int) =~= et) by {
                assert forall|k: int| 0 <= k < et.len() implies s.subrange(
                    i + 1,
                    i + 1 + et.len() as int,
                )[k] == et[k] by {
                    assert(s.subrange(i + 1, i + 1 + et.len() as int)[k] == s.subrange(
                        i,
                        i + total,
                    )[1 + k]);
                    assert(enc_opt_string(o)[1 + k] == et[k]);
                }
            }
            lemma_p_string_enc(s, i + 1, t);
        },
    }
}

proof fn lemma_p_share_items_enc(s: Seq<char>, i: int, sh: Seq<ShareModel>)
    requires
        0 <= i,
        shares_encodable(sh),
        i + enc_share_items(sh).len() <= s.len(),
        s.subrange(i, i + enc_share_items(sh).len() as int) == enc_share_items(sh),
    ensures
        p_share_items(s, i, sh.len()) == Some((sh, i + enc_share_items(sh).len())),
    decreases sh.len(),
{
    if sh.len() == 0 {
        assert(p_share_items(s, i, 0) == Some((Seq::<ShareModel>::empty(), i)));
        assert(sh =~= Seq::<ShareModel>::empty());
    } else {
        let total = enc_share_items(sh).len() as int;
        let en = enc_string(sh[0].name);
        let ep = enc_string(sh[0].path);
        let rest_enc = enc_share_items(sh.drop_first());
        assert(enc_share_items(sh) == en + ep + rest_enc);
        assert(s.subrange(i, i + en.len() as int) =~= en) by {
            assert forall|k: int| 0 <= k < en.len() implies s.subrange(i, i + en.len() as int)[k]
                == en[k] by {
                assert(s.subrange(i, i + en.len() as int)[k] == s.subrange(i, i + total)[k]);
                assert(enc_share_items(sh)[k] == en[k]);
            }
        }
        lemma_p_string_enc(s, i, sh[0].name);
        let j = i + en.len() as int;
        assert(s.subrange(j, j + ep.len() as int) =~= ep) by {
            assert forall|k: int| 0 <= k < ep.len() implies s.subrange(j, j + ep.len() as int)[k]
                == ep[k] by {
                assert(s.subrange(j, j + ep.len() as int)[k] == s.subrange(i, i + total)[en.len()
                    + k]);
                assert(enc_share_items(sh)[en.len() + k] == ep[k]);
            }
        }
        lemma_p_string_enc(s, j, sh[0].path);
        let k2 = j + ep.len() as int;
        assert(s.subrange(k2, k2 + rest_enc.len() as int) =~= rest_enc) by {
            assert forall|k: int| 0 <= k < rest_enc.len() implies s.subrange(
                k2,
                k2 + rest_enc.len() as int,
            )[k] == rest_enc[k] by {
                assert(s.subrange(k2, k2 + rest_enc.len() as int)[k] == s.subrange(i, i + total)[
                en.len() + ep.len() + k]);
                assert(enc_share_items(sh)[en.len() + ep.len() + k] == rest_enc[k]);
            }
        }
        assert(shares_encodable(sh.drop_first())) by {
            assert forall|t: int| 0 <= t < sh.drop_first().len() implies (#[trigger] sh.drop_first()[
            t]).name.len() <= u64::MAX && sh.drop_first()[t].path.len() <= u64::MAX by {
                assert(sh.drop_first()[t] == sh[t + 1]);
            }
        }
        lemma_p_share_items_enc(s, k2, sh.drop_first());
        assert(seq![sh[0]] + sh.drop_first() =~= sh);
    }
}

proof fn lemma_p_shares_enc(s: Seq<char>, i: int, sh: Seq<ShareModel>)
    requires
        0 <= i,
        shares_encodable(sh),
        i + enc_shares(sh).len() <= s.len(),
        s.subrange(i, i + enc_shares(sh).len() as int) == enc_shares(sh),
    ensures
        p_shares(s, i) == Some((sh, i + enc_shares(sh).len())),
{
    let total = enc_shares(sh).len() as int;
    let nc = enc_u64(sh.len()).len() as int;
    assert(s.subrange(i, i + nc) =~= enc_u64(sh.len())) by {
        assert forall|k: int| 0 <= k < nc implies s.subrange(i, i + nc)[k] == enc_u64(sh.len())[k] by {
            assert(s.subrange(i, i + nc)[k] == s.subrange(i, i + total)[k]);
            assert(enc_shares(sh)[k] == enc_u64(sh.len())[k]);
        }
    }
    lemma_p_u64_enc(s, i, sh.len());
    let j = i + nc;
    let rest_enc = enc_share_items(sh);
    assert(s.subrange(j, j + rest_enc.len() as int) =~= rest_enc) by {
        assert forall|k: int| 0 <= k < rest_enc.len() implies s.subrange(
            j,
            j + rest_enc.len() as int,
        )[k] == rest_enc[k] by {
            assert(s.subrange(j, j + rest_enc.len() as int)[k] == s.subrange(i, i + total)[nc + k]);
            assert(enc_shares(sh)[nc + k] == rest_enc[k]);
        }
    }
    lemma_p_share_items_enc(s, j, sh);
}

/// Round trip: parsing the document written for any well-formed,
/// encodable config value yields exactly that value.
#[verifier::rlimit(60)]
pub proof fn lemma_config_round_trip(m: ConfigModel)
    requires
        config_encodable(m),
        m.wf(),
    ensures
        spec_parse_config(spec_encode_config(m)) == Some(m),
{
    let s = spec_encode_config(m);
    let e1 = enc_os(m.os);
    let e2 = enc_u64(m.cpu);
    let e3 = enc_u64(m.memory);
    let e4 = enc_string(m.mac_address);
    let e5 = enc_shares(m.sharing);
    let e6 = enc_opt_bool(m.rosetta);
    let e7 = enc_opt_string(m.hardware_model);
    let e8 = enc_opt_string(m.machine_identifier);
    let o1 = e1.len() as int;
    let o2 = o1 + e2.len();
    let o3 = o2 + e3.len();
    let o4 = o3 + e4.len();
    let o5 = o4 + e5.len();
    let o6 = o5 + e6.len();
    let o7 = o6 + e7.len();
    let o8 = o7 + e8.len();
    assert(s.len() == o8);
    // the OS tag
    assert(s[0] == e1[0]);
    assert(p_os(s, 0) == Some((m.os, o1)));
    // cpu and memory
    assert(s.subrange(o1, o2) =~= e2) by {
        assert forall|k: int| 0 <= k < e2.len() implies s.subrange(o1, o2)[k] == e2[k] by {
            assert(s[o1 + k] == e2[k]);
        }
    }
    lemma_p_u64_enc(s, o1, m.cpu);
    assert(s.subrange(o2, o3) =~= e3) by {
        assert forall|k: int| 0 <= k < e3.len() implies s.subrange(o2, o3)[k] == e3[k] by {
            assert(s[o2 + k] == e3[k]);
        }
    }
    lemma_p_u64_enc(s, o2, m.memory);
    // the MAC address
    assert(s.subrange(o3, o4) =~= e4) by {
        assert forall|k: int| 0 <= k < e4.len() implies s.subrange(o3, o4)[k] == e4[k] by {
            assert(s[o3 + k] == e4[k]);
        }
    }
    lemma_p_string_enc(s, o3, m.mac_address);
    // the sharing table
    assert(s.subrange(o4, o5) =~= e5) by {
        assert forall|k: int| 0 <= k < e5.len() implies s.subrange(o4, o5)[k] == e5[k] by {
            assert(s[o4 + k] == e5[k]);
        }
    }
    lemma_p_shares_enc(s, o4, m.sharing);
    // rosetta
    assert(s.subrange(o5, o6) =~= e6) by {
        assert forall|k: int| 0 <= k < e6.len() implies s.subrange(o5, o6)[k] == e6[k] by {
            assert(s[o5 + k] == e6[k]);
        }
    }
    assert(p_opt_bool(s, o5) == Some((m.rosetta, o6))) by {
        match m.rosetta {
            None => {
                assert(s[o5] == e6[0]);
            },
            Some(b) => {
                assert(s[o5] == e6[0]);
                assert(s[o5 + 1] == e6[1]);
            },
        }
    }
    // the two macOS blobs
    assert(s.subrange(o6, o7) =~= e7) by {
        assert forall|k: int| 0 <= k < e7.len() implies s.subrange(o6, o7)[k] == e7[k] by {
            assert(s[o6 + k] == e7[k]);
        }
    }
    lemma_p_opt_string_enc(s, o6, m.hardware_model);
    assert(s.subrange(o7, o8) =~= e8) by {
        assert forall|k: int| 0 <= k < e8.len() implies s.subrange(o7, o8)[k] == e8[k] by {
            assert(s[o7 + k] == e8[k]);
        }
    }
    lemma_p_opt_string_enc(s, o7, m.machine_identifier);
}

// -------------------------------------------------------------- exec side
fn push_string_field(out: &mut String, t: &String)
    ensures
        final(out)@ == old(out)@ + enc_string(t@),
{
    let len = t.as_str().unicode_len();
    push_u64(out, len as u64);
    out.append(";");
    out.append(t.as_str());
    proof {
        reveal_strlit(";");
        assert(final(out)@ =~= old(out)@ + enc_string(t@));
    }
}

/// Writes the document for `c`.
#[verifier::rlimit(60)]
pub fn encode_config(c: &VmConfig) -> (r: String)
    ensures
        r@ == spec_encode_config(c.model()),
{
    proof {
        reveal_strlit("l");
        reveal_strlit("m");
        reveal_strlit(";");
        reveal_strlit("n");
        reveal_strlit("s");
        reveal_strlit("st");
        reveal_strlit("sf");
    }
    let mut out = String::new();
    match c.os {
        Os::Linux => out.append("l"),
        Os::MacOs => out.append("m"),
    }
    push_u64(&mut out, c.cpu);
    out.append(";");
    push_u64(&mut out, c.memory);
    out.append(";");
    push_string_field(&mut out, &c.mac_address);
    assert(out@ =~= enc_os(c.os) + enc_u64(c.cpu as nat) + enc_u64(c.memory as nat) + enc_string(
        c.mac_address@,
    ));
    let ghost base = out@;
    push_u64(&mut out, c.sharing.len() as u64);
    out.append(";");
    let mut idx: usize = 0;
    while idx < c.sharing.len()
        invariant
            idx <= c.sharing.len(),
            out@ == base + enc_u64(c.sharing@.len()) + enc_share_items(
                c.sharing@.map_values(|sh: Share| sh.model()).take(idx as int),
            ),
        decreases c.sharing.len() - idx,
    {
        let ghost models = c.sharing@.map_values(|sh: Share| sh.model());
        push_string_field(&mut out, &c.sharing[idx].name);
        push_string_field(&mut out, &c.sharing[idx].path);
        proof {
            lemma_enc_share_items_take_one(models, idx as int);
        }
        idx = idx + 1;
    }
    proof {
        let models = c.sharing@.map_values(|sh: Share| sh.model());
        assert(models.take(c.sharing@.len() as int) =~= models);
    }
    match c.rosetta {
        None => out.append("n"),
        Some(true) => out.append("st"),
        Some(false) => out.append("sf"),
    }
    match &c.hardware_model {
        None => out.append("n"),
        Some(t) => {
            out.append("s");
            push_string_field(&mut out, t);
        },
    }
    match &c.machine_identifier {
        None => out.append("n"),
        Some(t) => {
            out.append("s");
            push_string_field(&mut out, t);
        },
    }
    assert(out@ =~= spec_encode_config(c.model()));
    out
}

/// Appending one item extends the encoded share list by that item's fields.
proof fn lemma_enc_share_items_take_one(models: Seq<ShareModel>, idx: int)
    requires
        0 <= idx < models.len(),
    ensures
        enc_share_items(models.take(idx + 1)) == enc_share_items(models.take(idx)) + enc_string(
            models[idx].name,
        ) + enc_string(models[idx].path),
    decreases idx,
{
    if idx == 0 {
        assert(models.take(1).drop_first() =~= Seq::<ShareModel>::empty());
        assert(models.take(1)[0] == models[0]);
        assert(enc_share_items(models.take(0)) == Seq::<char>::empty());
        assert(enc_share_items(Seq::<ShareModel>::empty()) == Seq::<char>::empty());
        assert(enc_share_items(models.take(1)) == enc_string(models.take(1)[0].name) + enc_string(
            models.take(1)[0].path,
        ) + enc_share_items(models.take(1).drop_first()));
        assert(enc_share_items(models.take(1)) =~= enc_string(models[0].name) + enc_string(
            models[0].path,
        ));
        assert(enc_share_items(models.take(idx)) + enc_string(models[idx].name) + enc_string(
            models[idx].path,
        ) =~= enc_string(models[0].name) + enc_string(models[0].path));
    } else {
        lemma_enc_share_items_take_one(models.drop_first(), idx - 1);
        assert(models.take(idx + 1).drop_first() =~= models.drop_first().take(idx));
        assert(models.take(idx).drop_first() =~= models.drop_first().take(idx - 1));
        assert(models.take(idx + 1)[0] == models[0]);
        assert(models.take(idx)[0] == models[0]);
        assert(models.drop_first()[idx - 1] == models[idx]);
        assert(enc_share_items(models.take(idx + 1)) =~= enc_string(models[0].name) + enc_string(
            models[0].path,
        ) + enc_share_items(models.drop_first().take(idx)));
        assert(enc_share_items(models.take(idx)) =~= enc_string(models[0].name) + enc_string(
            models[0].path,
        ) + enc_share_items(models.drop_first().take(idx - 1)));
        assert(enc_share_items(models.take(idx)) + enc_string(models[idx].name) + enc_string(
            models[idx].path,
        ) =~= enc_string(models[0].name) + enc_string(models[0].path) + (enc_share_items(
            models.drop_first().take(idx - 1),
        ) + enc_string(models.drop_first()[idx - 1].name) + enc_string(
            models.drop_first()[idx - 1].path,
        )));
    }
}

fn take_string(s: &str, i: usize) -> (r: Option<(String, usize)>)
    requires
        i <= s@.len(),
    ensures
        match r {
            Some((t, j)) => p_string(s@, i as int) == Some((t@, j as int)) && i < j <= s@.len(),
            None => p_string(s@, i as int) is None,
        },
{
    let n = s.unicode_len();
    match take_u64(s, i) {
        Some((len, j)) => {
            if len > (n - j) as u64 {
                return None;
            }
            let end = j + len as usize;
            let t = s.substring_char(j, end).to_owned();
            Some((t, end))
        },
        None => None,
    }
}

fn take_opt_string(s: &str, i: usize) -> (r: Option<(Option<String>, usize)>)
    requires
        i <= s@.len(),
    ensures
        match r {
            Some((o, j)) => j <= s@.len() && match o {
                Some(t) => p_opt_string(s@, i as int) == Some((Some(t@), j as int)),
                None => p_opt_string(s@, i as int) == Some((None::<Seq<char>>, j as int)),
            },
            None => p_opt_string(s@, i as int) is None,
        },
{
    let n = s.unicode_len();
    if i >= n {
        return None;
    }
    let c = s.get_char(i);
    if c == 'n' {
        Some((None, i + 1))
    } else if c == 's' {
        match take_string(s, i + 1) {
            Some((t, j)) => Some((Some(t), j)),
            None => None,
        }
    } else {
        None
    }
}

fn malformed_err() -> (e: Exception)
    ensures
        e matches Exception::SerializationError(_),
{
    Exception::SerializationError("config file is malformed".to_owned())
}

/// Reads a document back; fails with `SerializationError` on any malformed
/// input, and only on malformed input. What comes back well-formed.
#[verifier::loop_isolation(false)]
pub fn parse_config(s: &str) -> (r: Result<VmConfig, Exception>)
    ensures
        match spec_parse_config(s@) {
            Some(m) => r matches Ok(c) && c.model() == m && c.wf(),
            None => r matches Err(e) && e matches Exception::SerializationError(_),
        },
{
    let n = s.unicode_len();
    if n == 0 {
        return Err(malformed_err());
    }
    let tag = s.get_char(0);
    let os = if tag == 'l' {
        Os::Linux
    } else if tag == 'm' {
        Os::MacOs
    } else {
        return Err(malformed_err());
    };
    let i1: usize = 1;
    let (cpu, i2) = match take_u64(s, i1) {
        Some(v) => v,
        None => {
            return Err(malformed_err());
        },
    };
    let (memory, i3) = match take_u64(s, i2) {
        Some(v) => v,
        None => {
            return Err(malformed_err());
        },
    };
    let (mac_address, i4) = match take_string(s, i3) {
        Some(v) => v,
        None => {
            return Err(malformed_err());
        },
    };
    let (count, sh_start) = match take_u64(s, i4) {
        Some(v) => v,
        None => {
            return Err(malformed_err());
        },
    };
    let mut cur = sh_start;
    let ghost i5_start = sh_start as int;
    let mut sharing: Vec<Share> = Vec::new();
    let mut remaining = count;
    while remaining > 0
        invariant
            cur <= s@.len(),
            remaining <= count,
            n == s@.len(),
            (match p_share_items(s@, cur as int, remaining as nat) {
                Some(pr) => p_share_items(s@, i5_start, count as nat) == Some(
                    (sharing@.map_values(|sh: Share| sh.model()) + pr.0, pr.1),
                ),
                None => p_share_items(s@, i5_start, count as nat) is None,
            }),
        decreases remaining,
    {
        let ghost old_sharing = sharing@;
        let ghost old_cur = cur as int;
        let ghost old_remaining = remaining as nat;
        let (name, j) = match take_string(s, cur) {
            Some(v) => v,
            None => {
                proof {
                    assert(p_string(s@, old_cur) is None);
                    assert(p_share_items(s@, old_cur, old_remaining) is None);
                }
                return Err(malformed_err());
            },
        };
        let (path, k) = match take_string(s, j) {
            Some(v) => v,
            None => {
                proof {
                    assert(p_string(s@, j as int) is None);
                    assert(p_share_items(s@, old_cur, old_remaining) is None);
                }
                return Err(malformed_err());
            },
        };
        let ghost parsed = ShareModel { name: name@, path: path@ };
        sharing.push(Share { name, path });
        cur = k;
        remaining = remaining - 1;
        proof {
            match p_share_items(s@, cur as int, remaining as nat) {
                Some(pr) => {
                    assert(p_share_items(s@, old_cur, old_remaining) == Some(
                        (seq![parsed] + pr.0, pr.1),
                    ));
                    assert(old_sharing.map_values(|sh: Share| sh.model()) + (seq![parsed] + pr.0)
                        =~= sharing@.map_values(|sh: Share| sh.model()) + pr.0);
                },
                None => {
                    assert(p_share_items(s@, old_cur, old_remaining) is None);
                },
            }
        }
    }
    proof {
        assert(p_share_items(s@, cur as int, 0) == Some((Seq::<ShareModel>::empty(), cur as int)));
        assert(sharing@.map_values(|sh: Share| sh.model()) + Seq::<ShareModel>::empty()
            =~= sharing@.map_values(|sh: Share| sh.model()));
    }
    let i5 = cur;
    if i5 >= n {
        return Err(malformed_err());
    }
    let rb = s.get_char(i5);
    let (rosetta, i6): (Option<bool>, usize) = if rb == 'n' {
        (None, i5 + 1)
    } else if rb == 's' && i5 + 1 < n && s.get_char(i5 + 1) == 't' {
        (Some(true), i5 + 2)
    } else if rb == 's' && i5 + 1 < n && s.get_char(i5 + 1) == 'f' {
        (Some(false), i5 + 2)
    } else {
        return Err(malformed_err());
    };
    let (hardware_model, i7) = match take_opt_string(s, i6) {
        Some(v) => v,
        None => {
            return Err(malformed_err());
        },
    };
    let (machine_identifier, i8) = match take_opt_string(s, i7) {
        Some(v) => v,
        None => {
            return Err(malformed_err());
        },
    };
    if i8 != n {
        return Err(malformed_err());
    }
    let config = VmConfig {
        os,
        cpu,
        memory,
        mac_address,
        sharing,
        rosetta,
        hardware_model,
        machine_identifier,
    };
    if !config.is_wf() {
        return Err(malformed_err());
    }
    Ok(config)
}

} // verus!
