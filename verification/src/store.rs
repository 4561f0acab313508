//! The durable check store: the ordered probe history, its snapshot
//! encoding, and the load/create/save decision logic.
//!
//! The store itself never touches the file system. Callers read the store
//! file and hand the outcome in as a [`ReadOutcome`]; the store hands back
//! the bytes that must be written. A snapshot is the `bincode` encoding of
//! the check rows, wrapped in one `zstd` frame.

use vstd::prelude::*;
use vstd::string::*;

use crate::records::{
    spec_check_hash, spec_hash_bytes, spec_hash_mix, Check, CheckData, HASH_SEED,
};
use crate::text::{hex16, spec_hex16};

verus! {

/// The compression level every snapshot is written with.
pub const ZSTD_COMPRESSION_LEVEL: i32 = 4;

/// How a store operation can fail.
#[derive(Clone, Copy, Debug, PartialEq, Eq, Structural)]
pub enum StoreError {
    /// The store file does not exist. The one recoverable kind: it makes
    /// `load_or_create` fall back to creating a fresh store.
    DoesNotExist,
    /// Reading or writing the store file failed.
    Io,
    /// Encoding or decoding the check rows failed.
    Serde,
    /// Compressing or decompressing the snapshot failed.
    Compression,
}

/// What the caller found when it tried to read the store file.
pub enum ReadOutcome {
    /// The file does not exist.
    Missing,
    /// The file exists but could not be read.
    Unreadable,
    /// The file's full contents.
    Data(Vec<u8>),
}

/// What `load_or_create` decided.
pub enum Loaded {
    /// The file existed and decoded; here is its store.
    Opened(Store),
    /// The file was missing; here is a fresh empty store and the snapshot
    /// bytes the caller must write to a newly created file.
    Created(Store, Vec<u8>),
}

/// The ordered history of all recorded checks.
pub struct Store {
    checks: Vec<Check>,
}

/// One check as it is laid out in the snapshot.
pub type RowData = (u64, u16, Option<u16>, Seq<char>);

/// The snapshot row of one check.
pub open spec fn row_of(c: CheckData) -> RowData {
    (c.timestamp, c.flags, c.latency, c.target)
}

/// The check a snapshot row stands for.
pub open spec fn check_of_row(r: RowData) -> CheckData {
    CheckData { timestamp: r.0, flags: r.1, latency: r.2, target: r.3 }
}

/// The snapshot rows of a whole history.
pub open spec fn rows_of(s: Seq<CheckData>) -> Seq<RowData> {
    s.map_values(|c: CheckData| row_of(c))
}

/// The history a sequence of snapshot rows stands for.
pub open spec fn checks_of_rows(rs: Seq<RowData>) -> Seq<CheckData> {
    rs.map_values(|r: RowData| check_of_row(r))
}

/// The ghost value of a vector of executable rows.
pub open spec fn rows_deep(v: Seq<(u64, u16, Option<u16>, String)>) -> Seq<RowData> {
    v.map_values(|r: (u64, u16, Option<u16>, String)| (r.0, r.1, r.2, r.3@))
}

/// What `bincode` encodes a row sequence to.
pub uninterp spec fn bin_encoded(rows: Seq<RowData>) -> Seq<u8>;

/// What `bincode` decodes a byte string to, if anything.
pub uninterp spec fn bin_decoded(bytes: Seq<u8>) -> Option<Seq<RowData>>;

/// What `zstd` compresses a byte string to, at the fixed level.
pub uninterp spec fn zstd_encoded(bytes: Seq<u8>) -> Seq<u8>;

/// What `zstd` decompresses a byte string to, if anything.
pub uninterp spec fn zstd_decoded(bytes: Seq<u8>) -> Option<Seq<u8>>;

/// The one snapshot encoding of a history: its rows under `bincode`,
/// wrapped in one `zstd` frame.
pub open spec fn spec_store_encoded(s: Seq<CheckData>) -> Seq<u8> {
    zstd_encoded(bin_encoded(rows_of(s)))
}

/// The history a snapshot byte string stands for, if it decodes.
pub open spec fn spec_store_decoded(bytes: Seq<u8>) -> Option<Seq<CheckData>> {
    match zstd_decoded(bytes) {
        None => None,
        Some(plain) => match bin_decoded(plain) {
            None => None,
            Some(rows) => Some(checks_of_rows(rows)),
        },
    }
}

/// The integrity hash of an in-memory history: every check's content hash
/// folded into one word.
pub open spec fn spec_store_hash(s: Seq<CheckData>) -> u64
    decreases s.len(),
{
    if s.len() == 0 {
        HASH_SEED
    } else {
        spec_hash_mix(spec_store_hash(s.drop_last()), spec_check_hash(s.last()))
    }
}

/// The store file location: a directory override when one is configured,
/// else the fixed default directory; the file name is fixed.
pub open spec fn spec_store_path(dir_override: Option<Seq<char>>) -> Seq<char> {
    match dir_override {
        Some(d) => d + "/"@ + "netpulse.store"@,
        None => "/var/lib/netpulse/netpulse.store"@,
    }
}

/// Relies on `bincode::serialize`: a pure function of the rows that, with
/// the default unlimited configuration writing into a vector, cannot fail
/// for these standard row types, and whose output `bincode::deserialize`
/// decodes back to an equal value.
#[verifier::external_body]
fn bincode_encode_rows(rows: &Vec<(u64, u16, Option<u16>, String)>) -> (r: Vec<u8>)
    ensures
        r@ == bin_encoded(rows_deep(rows@)),
        bin_decoded(r@) == Some(rows_deep(rows@)),
{
    bincode::serialize(rows).expect("bincode cannot fail on plain rows")
}

/// Relies on `bincode::deserialize`: decoding is a pure function of the
/// input bytes.
#[verifier::external_body]
fn bincode_decode_rows(bytes: &Vec<u8>) -> (r: Option<Vec<(u64, u16, Option<u16>, String)>>)
    ensures
        match r {
            Some(rows) => bin_decoded(bytes@) == Some(rows_deep(rows@)),
            None => bin_decoded(bytes@) is None,
        },
{
    match bincode::deserialize::<Vec<(u64, u16, Option<u16>, String)>>(bytes.as_slice()) {
        Ok(rows) => Some(rows),
        Err(_) => None,
    }
}

/// Relies on `zstd::stream::encode_all`: single-threaded at the fixed
/// valid level, writing into a vector, it is a pure function of the input
/// bytes and cannot fail, and `zstd::stream::decode_all` decompresses its
/// one frame back to the input.
#[verifier::external_body]
fn zstd_compress(data: &Vec<u8>) -> (r: Vec<u8>)
    ensures
        r@ == zstd_encoded(data@),
        zstd_decoded(r@) == Some(data@),
{
    zstd::stream::encode_all(data.as_slice(), ZSTD_COMPRESSION_LEVEL)
        .expect("zstd cannot fail compressing an in-memory buffer")
}

/// Relies on `zstd::stream::decode_all`: decompression is a pure function
/// of the input bytes.
#[verifier::external_body]
fn zstd_decompress(data: &Vec<u8>) -> (r: Option<Vec<u8>>)
    ensures
        match r {
            Some(p) => zstd_decoded(data@) == Some(p@),
            None => zstd_decoded(data@) is None,
        },
{
    zstd::stream::decode_all(data.as_slice()).ok()
}

/// A row decodes back to the check it was made from: the verified core of
/// the snapshot round trip.
pub proof fn lemma_rows_round_trip(s: Seq<CheckData>)
    ensures
        checks_of_rows(rows_of(s)) == s,
{
    assert(checks_of_rows(rows_of(s)) =~= s);
}

impl View for Store {
    type V = Seq<CheckData>;

    closed spec fn view(&self) -> Seq<CheckData> {
        self.checks@.map_values(|c: Check| c@)
    }
}

impl Store {
    /// A fresh store with no history.
    pub fn new() -> (s: Store)
        ensures
            s@ == Seq::<CheckData>::empty(),
    {
        let s = Store { checks: Vec::new() };
        proof {
            assert(s@ =~= Seq::<CheckData>::empty());
        }
        s
    }

    /// Appends a check to the in-memory history. Nothing is persisted
    /// until the caller writes the bytes that [`Store::save`] hands back.
    pub fn add_check(&mut self, check: Check)
        ensures
            final(self)@ == old(self)@.push(check@),
    {
        let ghost c = check@;
        self.checks.push(check);
        proof {
            assert(final(self)@ =~= old(self)@.push(c));
        }
    }

    /// The recorded history, oldest first.
    pub fn checks(&self) -> (r: &Vec<Check>)
        ensures
            r@.len() == self@.len(),
            forall|i: int| 0 <= i < r@.len() ==> r@[i]@ == self@[i],
    {
        &self.checks
    }

    /// Resolves the store file location. A configured directory override
    /// takes precedence over the fixed default directory; the file name is
    /// fixed either way.
    pub fn path(dir_override: Option<&str>) -> (r: String)
        ensures
            r@ == spec_store_path(match dir_override {
                Some(d) => Some(d@),
                None => None,
            }),
    {
        match dir_override {
            Some(d) => {
                let mut p = d.to_owned();
                p.append("/");
                p.append("netpulse.store");
                p
            },
            None => "/var/lib/netpulse/netpulse.store".to_owned(),
        }
    }

    /// The snapshot rows of this store's history.
    fn to_rows(&self) -> (r: Vec<(u64, u16, Option<u16>, String)>)
        ensures
            rows_deep(r@) == rows_of(self@),
    {
        let mut rows: Vec<(u64, u16, Option<u16>, String)> = Vec::new();
        let mut i: usize = 0;
        while i < self.checks.len()
            invariant
                0 <= i <= self.checks@.len(),
                rows@.len() == i,
                forall|j: int|
                    0 <= j < i ==> (#[trigger] rows@[j]).0 == self@[j].timestamp && rows@[j].1
                        == self@[j].flags && rows@[j].2 == self@[j].latency && rows@[j].3@
                        == self@[j].target,
            decreases self.checks@.len() - i,
        {
            let c = &self.checks[i];
            let row = (c.timestamp(), c.flags(), c.latency(), c.target().clone());
            rows.push(row);
            i = i + 1;
        }
        proof {
            assert forall|j: int| 0 <= j < self@.len() implies rows_deep(rows@)[j] == rows_of(
                self@,
            )[j] by {
                assert(rows_deep(rows@)[j] == (rows@[j].0, rows@[j].1, rows@[j].2, rows@[j].3@));
                assert(rows_of(self@)[j] == row_of(self@[j]));
            }
            assert(rows_deep(rows@) =~= rows_of(self@));
        }
        rows
    }

    /// The store a sequence of snapshot rows stands for.
    fn from_rows(rows: &Vec<(u64, u16, Option<u16>, String)>) -> (s: Store)
        ensures
            s@ == checks_of_rows(rows_deep(rows@)),
    {
        let mut checks: Vec<Check> = Vec::new();
        let mut i: usize = 0;
        while i < rows.len()
            invariant
                0 <= i <= rows@.len(),
                checks@.len() == i,
                forall|j: int|
                    0 <= j < i ==> (#[trigger] checks@[j])@.timestamp == rows@[j].0 && checks@[j]@.flags
                        == rows@[j].1 && checks@[j]@.latency == rows@[j].2 && checks@[j]@.target
                        == rows@[j].3@,
            decreases rows@.len() - i,
        {
            let row = &rows[i];
            checks.push(Check::new(row.0, row.1, row.2, row.3.clone()));
            i = i + 1;
        }
        let s = Store { checks };
        proof {
            assert forall|j: int| 0 <= j < rows@.len() implies s@[j] == checks_of_rows(
                rows_deep(rows@),
            )[j] by {
                assert(checks_of_rows(rows_deep(rows@))[j] == check_of_row(rows_deep(rows@)[j]));
                assert(rows_deep(rows@)[j] == (rows@[j].0, rows@[j].1, rows@[j].2, rows@[j].3@));
            }
            assert(s@ =~= checks_of_rows(rows_deep(rows@)));
        }
        s
    }

    /// Encodes the whole history as one snapshot: `bincode` rows in one
    /// `zstd` frame. The bytes are a function of the history alone, and
    /// they decode back to exactly this history.
    pub fn to_bytes(&self) -> (r: Vec<u8>)
        ensures
            r@ == spec_store_encoded(self@),
            spec_store_decoded(r@) == Some(self@),
    {
        let rows = self.to_rows();
        let plain = bincode_encode_rows(&rows);
        let b = zstd_compress(&plain);
        proof {
            lemma_rows_round_trip(self@);
        }
        b
    }

    /// Decodes one snapshot back into a store. Fails with `Compression`
    /// when the frame does not decompress, and with `Serde` when the rows
    /// do not decode.
    pub fn from_bytes(bytes: &Vec<u8>) -> (r: Result<Store, StoreError>)
        ensures
            spec_store_decoded(bytes@) matches Some(s) ==> (r matches Ok(st) && st@ == s),
            zstd_decoded(bytes@) is None ==> r == Err::<Store, StoreError>(StoreError::Compression),
            (zstd_decoded(bytes@) matches Some(p) && bin_decoded(p) is None) ==> r == Err::<
                Store,
                StoreError,
            >(StoreError::Serde),
    {
        match zstd_decompress(bytes) {
            None => Err(StoreError::Compression),
            Some(plain) => match bincode_decode_rows(&plain) {
                None => Err(StoreError::Serde),
                Some(rows) => Ok(Store::from_rows(&rows)),
            },
        }
    }

    /// Decides what loading the store file means: a missing file is the
    /// distinguished `DoesNotExist` condition, an unreadable one a plain
    /// I/O failure, and data is decoded as a snapshot.
    pub fn load(read: ReadOutcome) -> (r: Result<Store, StoreError>)
        ensures
            read is Missing ==> r == Err::<Store, StoreError>(StoreError::DoesNotExist),
            read is Unreadable ==> r == Err::<Store, StoreError>(StoreError::Io),
            read matches ReadOutcome::Data(b) ==> {
                &&& spec_store_decoded(b@) matches Some(s) ==> (r matches Ok(st) && st@ == s)
                &&& zstd_decoded(b@) is None ==> r == Err::<Store, StoreError>(
                    StoreError::Compression,
                )
                &&& (zstd_decoded(b@) matches Some(p) && bin_decoded(p) is None) ==> r == Err::<
                    Store,
                    StoreError,
                >(StoreError::Serde)
            },
    {
        match read {
            ReadOutcome::Missing => Err(StoreError::DoesNotExist),
            ReadOutcome::Unreadable => Err(StoreError::Io),
            ReadOutcome::Data(b) => Store::from_bytes(&b),
        }
    }

    /// Loads the store when the file is there, and falls back to creating
    /// a fresh empty one only on the `DoesNotExist` condition; any other
    /// failure propagates unchanged. A fresh store always comes with the
    /// snapshot bytes for the caller to write, and those bytes load back
    /// as the empty history.
    pub fn load_or_create(read: ReadOutcome) -> (r: Result<Loaded, StoreError>)
        ensures
            read is Missing ==> (r matches Ok(l) && (l matches Loaded::Created(st, b) && st@
                == Seq::<CheckData>::empty() && b@ == spec_store_encoded(Seq::<CheckData>::empty())
                && spec_store_decoded(b@) == Some(Seq::<CheckData>::empty()))),
            read is Unreadable ==> r == Err::<Loaded, StoreError>(StoreError::Io),
            read matches ReadOutcome::Data(b) ==> {
                &&& spec_store_decoded(b@) matches Some(s) ==> (r matches Ok(l) && l matches
                    Loaded::Opened(st) && st@ == s)
                &&& zstd_decoded(b@) is None ==> r == Err::<Loaded, StoreError>(
                    StoreError::Compression,
                )
                &&& (zstd_decoded(b@) matches Some(p) && bin_decoded(p) is None) ==> r == Err::<
                    Loaded,
                    StoreError,
                >(StoreError::Serde)
            },
    {
        let missing = match &read {
            ReadOutcome::Missing => true,
            _ => false,
        };
        if missing {
            let st = Store::new();
            let b = st.to_bytes();
            Ok(Loaded::Created(st, b))
        } else {
            match Store::load(read) {
                Ok(st) => Ok(Loaded::Opened(st)),
                Err(e) => Err(e),
            }
        }
    }

    /// Encodes the history for saving. Saving overwrites an existing store
    /// file; when the caller found none, this is the `DoesNotExist`
    /// failure and nothing may be written. The bytes are a function of the
    /// history alone, so saving an unchanged store rewrites the very same
    /// contents.
    pub fn save(&self, file_exists: bool) -> (r: Result<Vec<u8>, StoreError>)
        ensures
            !file_exists ==> r == Err::<Vec<u8>, StoreError>(StoreError::DoesNotExist),
            file_exists ==> (r matches Ok(b) && b@ == spec_store_encoded(self@)
                && spec_store_decoded(b@) == Some(self@)),
    {
        if !file_exists {
            Err(StoreError::DoesNotExist)
        } else {
            Ok(self.to_bytes())
        }
    }

    /// The integrity hash of the in-memory history, as a hexadecimal word.
    pub fn display_hash(&self) -> (r: String)
        ensures
            r@ == spec_hex16(spec_store_hash(self@)),
    {
        let mut acc: u64 = crate::records::HASH_SEED;
        let mut i: usize = 0;
        while i < self.checks.len()
            invariant
                0 <= i <= self.checks@.len(),
                acc == spec_store_hash(self@.take(i as int)),
            decreases self.checks@.len() - i,
        {
            let h = self.checks[i].get_hash();
            acc = crate::records::hash_mix(acc, h);
            proof {
                assert(self@.take(i + 1).drop_last() =~= self@.take(i as int));
                assert(self@.take(i + 1).last() == self@[i as int]);
            }
            i = i + 1;
        }
        proof {
            assert(self@.take(self@.len() as int) =~= self@);
        }
        hex16(acc)
    }

    /// The integrity hash of the on-disk snapshot bytes, as a hexadecimal
    /// word. The caller reads the file and hands its contents in.
    pub fn display_hash_of_bytes(bytes: &Vec<u8>) -> (r: String)
        ensures
            r@ == spec_hex16(spec_hash_bytes(HASH_SEED, bytes@)),
    {
        let h = crate::records::hash_bytes(bytes);
        hex16(h)
    }
}

} // verus!
