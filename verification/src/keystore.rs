//! Which keys a signature is checked against, and when a release counts as
//! verified.

use crate::error::MirsError;
use crate::path::extension_of;
use crate::path::FilePath;
use crate::text::chars_of;
use crate::text::lit;
use crate::text::text_eq;
use crate::text::texts;
use crate::textmap::lookup;
use crate::textmap::upsert;
use crate::textmap::TextMap;
use vstd::prelude::*;

verus! {

/// A key of the store: a primary key or a subkey, by the number under which
/// the keeper of the keys holds it.
#[derive(Clone, Copy, Debug, PartialEq, Eq, Structural)]
pub enum KeyRef {
    Primary(usize),
    Sub(usize),
}

/// The keys that signatures are checked against, by fingerprint and by key
/// id, both in hexadecimal.
#[derive(Debug)]
pub struct PgpKeyStore {
    pub primary_fingerprints: TextMap<usize>,
    pub primary_key_ids: TextMap<usize>,
    pub sub_fingerprints: TextMap<usize>,
    pub sub_key_ids: TextMap<usize>,
}

/// A `PgpKeyStore` as plain values.
pub struct KeyStoreModel {
    pub primary_fingerprints: Seq<(Seq<char>, usize)>,
    pub primary_key_ids: Seq<(Seq<char>, usize)>,
    pub sub_fingerprints: Seq<(Seq<char>, usize)>,
    pub sub_key_ids: Seq<(Seq<char>, usize)>,
}

impl View for PgpKeyStore {
    type V = KeyStoreModel;

    open spec fn view(&self) -> KeyStoreModel {
        KeyStoreModel {
            primary_fingerprints: self.primary_fingerprints@,
            primary_key_ids: self.primary_key_ids@,
            sub_fingerprints: self.sub_fingerprints@,
            sub_key_ids: self.sub_key_ids@,
        }
    }
}

/// Whether a file of the key directory is read as a key: its extension is
/// `asc`, `gpg` or `pgp`, or it has none.
pub open spec fn is_key_path(path: Seq<char>) -> bool {
    match extension_of(path) {
        None => true,
        Some(x) => x == "asc"@ || x == "gpg"@ || x == "pgp"@,
    }
}

/// Whether the file at `path` of the key directory is read as a key.
pub fn is_key_file(path: &FilePath) -> (r: bool)
    ensures
        r == is_key_path(path@),
{
    match path.extension() {
        None => true,
        Some(x) => {
            let c = chars_of(x);
            text_eq(c.as_slice(), lit("asc").as_slice()) || text_eq(
                c.as_slice(),
                lit("gpg").as_slice(),
            ) || text_eq(c.as_slice(), lit("pgp").as_slice())
        },
    }
}

/// Every key of a table, in the order of the table.
pub open spec fn all_keys(table: Seq<(Seq<char>, usize)>, primary: bool) -> Seq<KeyRef> {
    Seq::new(
        table.len(),
        |i: int|
            if primary {
                KeyRef::Primary(table[i].1)
            } else {
                KeyRef::Sub(table[i].1)
            },
    )
}

/// The keys of the store that carry the name `name`: the primary key of the
/// name, then the subkey.
pub open spec fn keys_named(
    primary: Seq<(Seq<char>, usize)>,
    sub: Seq<(Seq<char>, usize)>,
    name: Seq<char>,
) -> Seq<KeyRef> {
    (match lookup(primary, name) {
        Some(k) => seq![KeyRef::Primary(k)],
        None => Seq::empty(),
    }) + (match lookup(sub, name) {
        Some(k) => seq![KeyRef::Sub(k)],
        None => Seq::empty(),
    })
}

/// The keys of the store that carry one of the first `n` names, in the
/// order of the names.
pub open spec fn keys_named_any(
    primary: Seq<(Seq<char>, usize)>,
    sub: Seq<(Seq<char>, usize)>,
    names: Seq<Seq<char>>,
    n: int,
) -> Seq<KeyRef>
    decreases n,
{
    if n <= 0 || n > names.len() {
        Seq::empty()
    } else {
        keys_named_any(primary, sub, names, n - 1) + keys_named(primary, sub, names[n - 1])
    }
}

/// The keys that a signature is tried against, in order. A signature that
/// names no issuer is tried against every key, primary keys first. One
/// that names issuers is tried against the keys of its fingerprints, then
/// against the keys of its key ids.
pub open spec fn candidates_of(
    store: KeyStoreModel,
    fingerprints: Seq<Seq<char>>,
    key_ids: Seq<Seq<char>>,
) -> Seq<KeyRef> {
    if fingerprints.len() == 0 && key_ids.len() == 0 {
        all_keys(store.primary_key_ids, true) + all_keys(store.sub_key_ids, false)
    } else {
        keys_named_any(
            store.primary_fingerprints,
            store.sub_fingerprints,
            fingerprints,
            fingerprints.len() as int,
        ) + keys_named_any(store.primary_key_ids, store.sub_key_ids, key_ids, key_ids.len() as int)
    }
}

fn push_all(out: &mut Vec<KeyRef>, table: &TextMap<usize>, primary: bool)
    ensures
        final(out)@ == old(out)@ + all_keys(table@, primary),
{
    let mut i: usize = 0;
    assert(out@ =~= old(out)@ + all_keys(table@, primary).take(0));
    while i < table.len()
        invariant
            i <= table@.len(),
            out@ == old(out)@ + all_keys(table@, primary).take(i as int),
        decreases table@.len() - i,
    {
        let k = *table.value_at(i);
        let ghost before = out@;
        if primary {
            out.push(KeyRef::Primary(k));
        } else {
            out.push(KeyRef::Sub(k));
        }
        assert(all_keys(table@, primary).take(i + 1) =~= all_keys(table@, primary).take(
            i as int,
        ).push(all_keys(table@, primary)[i as int]));
        assert(out@ =~= old(out)@ + all_keys(table@, primary).take(i + 1));
        i += 1;
    }
    assert(all_keys(table@, primary).take(table@.len() as int) =~= all_keys(table@, primary));
}

fn push_named(
    out: &mut Vec<KeyRef>,
    primary: &TextMap<usize>,
    sub: &TextMap<usize>,
    names: &Vec<String>,
)
    ensures
        final(out)@ == old(out)@ + keys_named_any(
            primary@,
            sub@,
            texts(names@),
            names@.len() as int,
        ),
{
    let mut i: usize = 0;
    assert(out@ =~= old(out)@ + keys_named_any(primary@, sub@, texts(names@), 0));
    while i < names.len()
        invariant
            i <= names.len(),
            out@ == old(out)@ + keys_named_any(primary@, sub@, texts(names@), i as int),
        decreases names.len() - i,
    {
        let name = chars_of(names[i].as_str());
        let ghost before = out@;
        match primary.get(name.as_slice()) {
            Some(k) => out.push(KeyRef::Primary(*k)),
            None => {},
        }
        match sub.get(name.as_slice()) {
            Some(k) => out.push(KeyRef::Sub(*k)),
            None => {},
        }
        assert(out@ =~= before + keys_named(primary@, sub@, name@));
        assert(out@ =~= old(out)@ + keys_named_any(primary@, sub@, texts(names@), i + 1));
        i += 1;
    }
}

impl PgpKeyStore {
    /// A store without keys.
    pub fn new() -> (r: Self)
        ensures
            r@.primary_fingerprints.len() == 0,
            r@.primary_key_ids.len() == 0,
            r@.sub_fingerprints.len() == 0,
            r@.sub_key_ids.len() == 0,
    {
        PgpKeyStore {
            primary_fingerprints: TextMap::new(),
            primary_key_ids: TextMap::new(),
            sub_fingerprints: TextMap::new(),
            sub_key_ids: TextMap::new(),
        }
    }

    /// Takes a primary key into the store, under its fingerprint and its
    /// key id.
    pub fn add_primary(&mut self, fingerprint: &str, key_id: &str, key: usize)
        ensures
            final(self)@ == (KeyStoreModel {
                primary_fingerprints: upsert(old(self)@.primary_fingerprints, fingerprint@, key),
                primary_key_ids: upsert(old(self)@.primary_key_ids, key_id@, key),
                ..old(self)@
            }),
    {
        self.primary_fingerprints.insert(chars_of(fingerprint), key);
        self.primary_key_ids.insert(chars_of(key_id), key);
    }

    /// Takes a subkey into the store, under its fingerprint and its key id.
    pub fn add_sub(&mut self, fingerprint: &str, key_id: &str, key: usize)
        ensures
            final(self)@ == (KeyStoreModel {
                sub_fingerprints: upsert(old(self)@.sub_fingerprints, fingerprint@, key),
                sub_key_ids: upsert(old(self)@.sub_key_ids, key_id@, key),
                ..old(self)@
            }),
    {
        self.sub_fingerprints.insert(chars_of(fingerprint), key);
        self.sub_key_ids.insert(chars_of(key_id), key);
    }

    /// The keys that a signature is tried against, in order, by the issuer
    /// fingerprints and issuer key ids that it names.
    pub fn candidates(&self, fingerprints: &Vec<String>, key_ids: &Vec<String>) -> (r: Vec<KeyRef>)
        ensures
            r@ == candidates_of(self@, texts(fingerprints@), texts(key_ids@)),
    {
        let mut out: Vec<KeyRef> = Vec::new();
        if fingerprints.len() == 0 && key_ids.len() == 0 {
            push_all(&mut out, &self.primary_key_ids, true);
            push_all(&mut out, &self.sub_key_ids, false);
        } else {
            push_named(&mut out, &self.primary_fingerprints, &self.sub_fingerprints, fingerprints);
            push_named(&mut out, &self.primary_key_ids, &self.sub_key_ids, key_ids);
        }
        assert(out@ =~= candidates_of(self@, texts(fingerprints@), texts(key_ids@)));
        out
    }
}

/// The keys that a signature is tried against where the target names its
/// own key: that key, then its subkeys in order.
pub open spec fn own_keys(subkeys: nat) -> Seq<KeyRef> {
    Seq::new(
        subkeys + 1,
        |i: int|
            if i == 0 {
                KeyRef::Primary(0)
            } else {
                KeyRef::Sub((i - 1) as usize)
            },
    )
}

/// The keys that a signature is tried against where the target names its
/// own key.
pub fn repository_candidates(subkeys: usize) -> (r: Vec<KeyRef>)
    ensures
        r@ == own_keys(subkeys as nat),
{
    let mut out: Vec<KeyRef> = Vec::new();
    out.push(KeyRef::Primary(0));
    let mut i: usize = 0;
    assert(out@ =~= own_keys(subkeys as nat).take(1));
    while i < subkeys
        invariant
            i <= subkeys,
            out@ == own_keys(subkeys as nat).take(i + 1),
        decreases subkeys - i,
    {
        out.push(KeyRef::Sub(i));
        assert(out@ =~= own_keys(subkeys as nat).take(i + 2));
        i += 1;
    }
    assert(own_keys(subkeys as nat).take(subkeys + 1) =~= own_keys(subkeys as nat));
    out
}

/// What the trials of the signatures of a release came to: for each
/// signature whether a key was there to try, and whether a trial went well.
#[derive(Clone, Copy, Debug, PartialEq, Eq, Structural)]
pub struct Trial {
    pub had_key: bool,
    pub verified: bool,
}

/// Whether one of the trials went well.
pub open spec fn any_verified(trials: Seq<Trial>) -> bool {
    exists|i: int| 0 <= i < trials.len() && (#[trigger] trials[i]).verified
}

/// Whether a key was there for one of the trials.
pub open spec fn any_key(trials: Seq<Trial>) -> bool {
    exists|i: int| 0 <= i < trials.len() && (#[trigger] trials[i]).had_key
}

/// Whether a release counts as verified: one signature that one key
/// validates is enough. Where none does, the error says whether there was a
/// key to try at all.
pub fn verdict(trials: &Vec<Trial>) -> (r: Result<(), MirsError>)
    ensures
        match r {
            Ok(()) => any_verified(trials@),
            Err(e) => !any_verified(trials@) && if any_key(trials@) {
                e == MirsError::PgpNotVerified
            } else {
                e is PgpKeyVerification
            },
        },
{
    let mut had_key = false;
    let mut i: usize = 0;
    while i < trials.len()
        invariant
            i <= trials.len(),
            forall|k: int| 0 <= k < i ==> !(#[trigger] trials@[k]).verified,
            had_key == (exists|k: int| 0 <= k < i && (#[trigger] trials@[k]).had_key),
        decreases trials.len() - i,
    {
        if trials[i].verified {
            return Ok(());
        }
        if trials[i].had_key {
            had_key = true;
        }
        i += 1;
    }
    if had_key {
        Err(MirsError::PgpNotVerified)
    } else {
        Err(
            MirsError::PgpKeyVerification {
                path: String::new(),
                msg: "no key of the signature is known".to_owned(),
            },
        )
    }
}

/// What the trial of one signature came to, by the keys that were tried:
/// a key was there where any was tried, and the trial went well where one
/// key validates the signature. One good key among them is enough.
pub fn trial_of(validated: &Vec<bool>) -> (r: Trial)
    ensures
        r.had_key == (validated@.len() > 0),
        r.verified == (exists|i: int| 0 <= i < validated@.len() && validated@[i]),
{
    let mut i: usize = 0;
    while i < validated.len()
        invariant
            i <= validated.len(),
            forall|k: int| 0 <= k < i ==> !validated@[k],
        decreases validated.len() - i,
    {
        if validated[i] {
            return Trial { had_key: true, verified: true };
        }
        i += 1;
    }
    Trial { had_key: validated.len() > 0, verified: false }
}

} // verus!
