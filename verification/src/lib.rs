//! A reader for transit schedule datasets: tables of comma-separated text
//! bundled in a zip archive are decoded into typed records and linked into
//! trips with their ordered stop sequences.

pub mod archive;
pub mod codecs;
pub mod error;
pub mod string_map;
pub mod structures;
pub mod table;
pub mod text;

use vstd::prelude::*;

use crate::archive::{
    archive_data, archive_names, archive_opens, archive_reads, container_entries_ok, container_ok,
    zip_entry_data, zip_entry_name, zip_len, zip_open, ZipReadFailure,
};
use crate::error::{Error, ErrorV};
use crate::string_map::StringMap;
use crate::table::{read_table, read_table_custom, FromRow, TableRow};
use crate::text::{base_name, base_name_spec, str_eq};

verus! {

// ---------------------------------------------------------------------------
// Identified entities
// ---------------------------------------------------------------------------
/// A record that exposes a stable identifier, possibly empty where its schema
/// marks the identifier optional.
pub trait Id {
    /// The identifier's text.
    spec fn id_spec(&self) -> Seq<char>;

    fn id(&self) -> (r: &str)
        ensures
            r@ == self.id_spec(),
    ;
}

/// The entity under identifier `k` after mapping a record sequence: the last
/// record with that identifier — records sharing one identifier collide, the
/// later row kept.
pub open spec fn to_map_spec<O: Id>(s: Seq<O>, k: Seq<char>) -> Option<O>
    decreases s.len(),
{
    if s.len() == 0 {
        None
    } else if s.last().id_spec() == k {
        Some(s.last())
    } else {
        to_map_spec(s.drop_last(), k)
    }
}

/// The distinct identifiers of a record sequence, in order of first
/// appearance.
pub open spec fn distinct_ids<O: Id>(s: Seq<O>) -> Seq<Seq<char>>
    decreases s.len(),
{
    if s.len() == 0 {
        Seq::<Seq<char>>::empty()
    } else {
        let rest = distinct_ids(s.drop_last());
        if rest.contains(s.last().id_spec()) {
            rest
        } else {
            rest.push(s.last().id_spec())
        }
    }
}

/// A mapped entity carries the identifier it is mapped under.
pub proof fn lemma_to_map_spec_id<O: Id>(s: Seq<O>, k: Seq<char>)
    ensures
        to_map_spec(s, k) matches Some(t) ==> t.id_spec() == k,
    decreases s.len(),
{
    if s.len() > 0 {
        lemma_to_map_spec_id(s.drop_last(), k);
    }
}

/// A mapped entity is one of the records it was built from.
pub proof fn lemma_to_map_spec_mem<O: Id>(s: Seq<O>, k: Seq<char>)
    ensures
        to_map_spec(s, k) matches Some(t) ==> s.contains(t),
    decreases s.len(),
{
    if s.len() > 0 {
        lemma_to_map_spec_mem(s.drop_last(), k);
        if s.last().id_spec() != k && to_map_spec(s.drop_last(), k) is Some {
            let t = to_map_spec(s.drop_last(), k)->Some_0;
            let w = choose|w: int| 0 <= w < s.drop_last().len() && s.drop_last()[w] == t;
            assert(s[w] == t);
        } else if s.last().id_spec() == k {
            assert(s[s.len() - 1] == s.last());
        }
    }
}

/// Builds an identifier-keyed mapping out of records; under equal identifiers
/// the last record wins, and the keys keep the order of first appearance.
pub fn to_map<O: Id>(elements: Vec<O>) -> (r: StringMap<O>)
    ensures
        r.wf(),
        forall|k: Seq<char>| r.spec_get(k) == to_map_spec(elements@, k),
        r.keys() == distinct_ids(elements@),
{
    let ghost evs = elements@;
    let mut elements = elements;
    let mut m: StringMap<O> = StringMap::new();
    let n = elements.len();
    let mut i: usize = 0;
    while i < n
        invariant
            n == evs.len(),
            0 <= i <= n,
            elements@ == evs.skip(i as int),
            m.wf(),
            forall|k: Seq<char>| m.spec_get(k) == to_map_spec(evs.take(i as int), k),
            m.keys() == distinct_ids(evs.take(i as int)),
        decreases n - i,
    {
        proof {
            assert(evs.skip(i as int)[0] == evs[i as int]);
            assert(evs.skip(i as int).subrange(1, evs.skip(i as int).len() as int) =~= evs.skip(
                i as int + 1,
            ));
        }
        let e = elements.remove(0);
        let key = String::from_str(e.id());
        let ghost kv = key@;
        let ghost pre = m;
        m.insert(key, e);
        proof {
            assert(evs.take(i + 1).drop_last() =~= evs.take(i as int));
            assert(evs.take(i + 1).last() == evs[i as int]);
            assert forall|k: Seq<char>| m.spec_get(k) == to_map_spec(
                evs.take(i + 1),
                k,
            ) by {
                // Case split: the inserted identifier either is the looked-up
                // key — the new last record — or is not, and the earlier
                // mapping stands.
                if k == kv {
                } else {
                }
            }
            assert(pre.contains_key(kv) == distinct_ids(evs.take(i as int)).contains(kv));
            assert(m.keys() =~= distinct_ids(evs.take(i + 1)));
        }
        i += 1;
    }
    proof {
        assert(evs.take(n as int) =~= evs);
    }
    m
}

// ---------------------------------------------------------------------------
// The archive index
// ---------------------------------------------------------------------------
/// The fixed logical table names that make up a dataset.
pub open spec fn is_dataset_name(s: Seq<char>) -> bool {
    ||| s == "agency.txt"@
    ||| s == "attributions.txt"@
    ||| s == "calendar.txt"@
    ||| s == "calendar_dates.txt"@
    ||| s == "fare_attributes.txt"@
    ||| s == "fare_rules.txt"@
    ||| s == "feed_info.txt"@
    ||| s == "frequencies.txt"@
    ||| s == "levels.txt"@
    ||| s == "pathways.txt"@
    ||| s == "routes.txt"@
    ||| s == "shapes.txt"@
    ||| s == "stop_times.txt"@
    ||| s == "stops.txt"@
    ||| s == "transfers.txt"@
    ||| s == "translations.txt"@
    ||| s == "trips.txt"@
}

fn is_dataset_file(s: &str) -> (r: bool)
    ensures
        r == is_dataset_name(s@),
{
    str_eq(s, "agency.txt") || str_eq(s, "attributions.txt") || str_eq(s, "calendar.txt") || str_eq(
        s,
        "calendar_dates.txt",
    ) || str_eq(s, "fare_attributes.txt") || str_eq(s, "fare_rules.txt") || str_eq(
        s,
        "feed_info.txt",
    ) || str_eq(s, "frequencies.txt") || str_eq(s, "levels.txt") || str_eq(s, "pathways.txt")
        || str_eq(s, "routes.txt") || str_eq(s, "shapes.txt") || str_eq(s, "stop_times.txt")
        || str_eq(s, "stops.txt") || str_eq(s, "transfers.txt") || str_eq(s, "translations.txt")
        || str_eq(s, "trips.txt")
}

/// The entry that a logical table name resolves to: the last entry whose
/// terminal path component is that name, however deep the entry is nested.
pub open spec fn last_entry_for(names: Seq<Seq<char>>, k: Seq<char>) -> Option<int>
    decreases names.len(),
{
    if names.len() == 0 {
        None
    } else if base_name_spec(names.last()) == k {
        Some(names.len() - 1)
    } else {
        last_entry_for(names.drop_last(), k)
    }
}

pub open spec fn opt_idx_eq(a: Option<usize>, b: Option<int>) -> bool {
    match (a, b) {
        (Some(x), Some(y)) => x as int == y,
        (None, None) => true,
        _ => false,
    }
}

/// A decoding session over one archive: the container and the mapping from
/// logical table names to entry indices, built by one scan of the entries.
pub struct GtfsReader {
    archive: zip::ZipArchive<std::io::Cursor<Vec<u8>>>,
    file_mappings: StringMap<usize>,
}

impl GtfsReader {
    /// The stored entry names of the session's container.
    pub closed spec fn names(self) -> Seq<Seq<char>> {
        archive_names(self.archive)
    }

    /// The entries' decompressed bytes.
    pub closed spec fn data(self) -> Seq<Seq<u8>> {
        archive_data(self.archive)
    }

    /// Whether each entry of the session's container opens.
    pub closed spec fn entry_opens(self) -> Seq<bool> {
        archive_opens(self.archive)
    }

    /// Whether each entry of the session's container opens and reads to the
    /// end.
    pub closed spec fn entry_reads(self) -> Seq<bool> {
        archive_reads(self.archive)
    }

    /// The entry index that a logical table name is mapped to.
    pub closed spec fn mapping(self, k: Seq<char>) -> Option<usize> {
        self.file_mappings.spec_get(k)
    }

    /// Well-formed: every mapped index lies inside the container.
    pub closed spec fn wf(self) -> bool {
        &&& self.file_mappings.wf()
        &&& self.file_mappings.values().len() == self.file_mappings.keys().len()
        &&& archive_data(self.archive).len() == archive_names(self.archive).len()
        &&& archive_opens(self.archive).len() == archive_names(self.archive).len()
        &&& archive_reads(self.archive).len() == archive_names(self.archive).len()
        &&& forall|j: int|
            0 <= j < self.file_mappings.values().len() ==> (
            #[trigger] self.file_mappings.values()[j]) < archive_names(self.archive).len()
    }

    /// The index maps exactly the recognized table names that occur as some
    /// entry's terminal path component, each to the last such entry.
    pub open spec fn index_ok(self) -> bool {
        &&& forall|k: Seq<char>|
            is_dataset_name(k) ==> opt_idx_eq(self.mapping(k), last_entry_for(self.names(), k))
        &&& forall|k: Seq<char>| !is_dataset_name(k) ==> self.mapping(k) is None
    }

    /// Opens a session over an archive's bytes: scans every entry once and
    /// records, for each recognized logical table name, the last entry whose
    /// terminal path component matches it. This succeeds exactly when the
    /// container's directory parses and every listed entry opens; missing
    /// tables are not an error here — absence surfaces when a table is
    /// requested.
    pub fn from_bytes(bytes: Vec<u8>) -> (r: Result<GtfsReader, Error>)
        ensures
            r is Ok <==> container_ok(bytes@) && container_entries_ok(bytes@),
            match r {
                Ok(g) => g.wf() && g.index_ok() && forall|i: int|
                    0 <= i < g.entry_opens().len() ==> #[trigger] g.entry_opens()[i],
                Err(e) => e.deep_view() matches ErrorV::Zip(_),
            },
    {
        let ghost bv = bytes@;
        let mut archive = match zip_open(bytes) {
            Ok(a) => a,
            Err(m) => {
                return Err(Error::Zip(m));
            },
        };
        let len = zip_len(&archive);
        let ghost names = archive_names(archive);
        let ghost opens = archive_opens(archive);
        let mut file_mappings: StringMap<usize> = StringMap::new();
        let mut index: usize = 0;
        while index < len
            invariant
                bv == bytes@,
                len == archive_names(archive).len(),
                archive_names(archive) == names,
                archive_data(archive).len() == names.len(),
                archive_opens(archive) == opens,
                opens.len() == names.len(),
                archive_reads(archive).len() == names.len(),
                container_ok(bv),
                container_entries_ok(bv) <==> (forall|i: int|
                    0 <= i < opens.len() ==> opens[i]),
                forall|j: int| 0 <= j < index ==> #[trigger] opens[j],
                0 <= index <= len,
                file_mappings.wf(),
                file_mappings.values().len() == file_mappings.keys().len(),
                forall|j: int|
                    0 <= j < file_mappings.values().len() ==> (
                    #[trigger] file_mappings.values()[j]) < names.len(),
                forall|k: Seq<char>|
                    is_dataset_name(k) ==> opt_idx_eq(
                        file_mappings.spec_get(k),
                        last_entry_for(names.take(index as int), k),
                    ),
                forall|k: Seq<char>|
                    !is_dataset_name(k) ==> file_mappings.spec_get(k) is None,
            decreases len - index,
        {
            let name = match zip_entry_name(&mut archive, index) {
                Ok(n) => n,
                Err(m) => {
                    proof {
                        assert(!opens[index as int]);
                        assert(!container_entries_ok(bv));
                    }
                    return Err(Error::Zip(m));
                },
            };
            let base = base_name(name.as_str());
            if is_dataset_file(base) {
                file_mappings.insert(base.to_owned(), index);
            }
            proof {
                assert(names.take(index + 1).drop_last() =~= names.take(index as int));
                assert(names.take(index + 1).last() == names[index as int]);
                assert forall|k: Seq<char>| is_dataset_name(k) implies opt_idx_eq(
                    file_mappings.spec_get(k),
                    last_entry_for(names.take(index + 1), k),
                ) by {
                    // Case split: the scanned entry's basename either is the
                    // looked-up name — the new last match — or is not, and
                    // the earlier resolution stands.
                    if k == base_name_spec(names[index as int]) {
                    } else {
                    }
                }
            }
            index += 1;
        }
        proof {
            assert(names.take(len as int) =~= names);
            assert(container_entries_ok(bv));
        }
        Ok(GtfsReader { archive, file_mappings })
    }

    /// Opens one entry and decodes it as a table of `T` records.
    fn read_objects<T: TableRow>(&mut self, filename: &str, index: usize) -> (res: Result<
        Vec<T>,
        Error,
    >)
        requires
            old(self).wf(),
            index < old(self).names().len(),
        ensures
            final(self).wf(),
            final(self).names() == old(self).names(),
            final(self).data() == old(self).data(),
            final(self).entry_opens() == old(self).entry_opens(),
            final(self).entry_reads() == old(self).entry_reads(),
            forall|k: Seq<char>| final(self).mapping(k) == old(self).mapping(k),
            read_outcome_ok::<T>(*old(self), index as int, filename@, res),
    {
        let data = match zip_entry_data(&mut self.archive, index) {
            Ok(d) => d,
            Err(ZipReadFailure::Open(_)) => {
                let msg = String::from_str("Missing file: ").concat(filename);
                return Err(Error::FileNotFound(msg));
            },
            Err(ZipReadFailure::Read(m)) => {
                return Err(Error::FileReadError { filename: filename.to_owned(), message: m });
            },
        };
        read_table::<T>(filename, data)
    }

    /// Resolves a logical table name through the index and decodes its table;
    /// a name the index does not hold fails as not found.
    fn read_gtfs<T: TableRow>(&mut self, filename: &str) -> (res: Result<Vec<T>, Error>)
        requires
            old(self).wf(),
        ensures
            final(self).wf(),
            final(self).names() == old(self).names(),
            final(self).data() == old(self).data(),
            final(self).entry_opens() == old(self).entry_opens(),
            final(self).entry_reads() == old(self).entry_reads(),
            forall|k: Seq<char>| final(self).mapping(k) == old(self).mapping(k),
            match old(self).mapping(filename@) {
                Some(idx) => read_outcome_ok::<T>(*old(self), idx as int, filename@, res),
                None => res matches Err(e) && e.deep_view() == ErrorV::FileNotFound(filename@),
            },
    {
        let index = match self.file_mappings.get(filename) {
            Some(i) => *i,
            None => {
                return Err(Error::FileNotFound(filename.to_owned()));
            },
        };
        proof {
            let m = self.file_mappings;
            assert(m.contains_key(filename@));
            assert(exists|j: int| 0 <= j < m.keys().len() && m.keys()[j] == filename@);
            let ki = m.key_index(filename@);
            assert(0 <= ki < m.keys().len() && m.keys()[ki] == filename@);
            assert(index == m.values()[ki]);
            assert(index < self.names().len());
        }
        self.read_objects::<T>(filename, index)
    }

    /// The agencies of the dataset.
    pub fn agencies(&mut self) -> (res: Result<Vec<structures::agency::Agency>, Error>)
        requires
            old(self).wf(),
        ensures
            reads::<structures::agency::Agency>(*old(self), *final(self), "agency.txt"@, res),
    {
        self.read_gtfs("agency.txt")
    }

    /// The attributions of the dataset.
    pub fn attributions(&mut self) -> (res: Result<Vec<structures::attributions::Attribution>, Error>)
        requires
            old(self).wf(),
        ensures
            reads::<structures::attributions::Attribution>(
                *old(self),
                *final(self),
                "attributions.txt"@,
                res,
            ),
    {
        self.read_gtfs("attributions.txt")
    }

    /// The service calendars of the dataset.
    pub fn calendar(&mut self) -> (res: Result<Vec<structures::calendar::Calendar>, Error>)
        requires
            old(self).wf(),
        ensures
            reads::<structures::calendar::Calendar>(*old(self), *final(self), "calendar.txt"@, res),
    {
        self.read_gtfs("calendar.txt")
    }

    /// The service calendars, keyed by service identifier; under equal
    /// identifiers the last row wins.
    pub fn calendar_map(&mut self) -> (res: Result<
        StringMap<structures::calendar::Calendar>,
        Error,
    >)
        requires
            old(self).wf(),
        ensures
            final(self).wf(),
            final(self).names() == old(self).names(),
            final(self).data() == old(self).data(),
            forall|k: Seq<char>| final(self).mapping(k) == old(self).mapping(k),
            match res {
                Ok(m) => m.wf() && exists|cs: Seq<structures::calendar::Calendar>|
                    {
                        &&& table_of::<structures::calendar::Calendar>(
                            *old(self),
                            "calendar.txt"@,
                            cs,
                        )
                        &&& m.keys() == distinct_ids(cs)
                        &&& forall|k: Seq<char>| #[trigger] m.spec_get(k) == to_map_spec(cs, k)
                    },
                Err(e) => match old(self).mapping("calendar.txt"@) {
                    Some(idx) => read_outcome_ok::<structures::calendar::Calendar>(
                        *old(self),
                        idx as int,
                        "calendar.txt"@,
                        Err(e),
                    ),
                    None => e.deep_view() == ErrorV::FileNotFound("calendar.txt"@),
                },
            },
    {
        let cs = match self.calendar() {
            Ok(v) => v,
            Err(e) => {
                return Err(e);
            },
        };
        let ghost gcs = cs@;
        let m = to_map(cs);
        proof {
            assert(table_of::<structures::calendar::Calendar>(*old(self), "calendar.txt"@, gcs));
        }
        Ok(m)
    }

    /// The service exceptions of the dataset.
    pub fn calendar_dates(&mut self) -> (res: Result<
        Vec<structures::calendar_dates::CalendarDate>,
        Error,
    >)
        requires
            old(self).wf(),
        ensures
            reads::<structures::calendar_dates::CalendarDate>(
                *old(self),
                *final(self),
                "calendar_dates.txt"@,
                res,
            ),
    {
        self.read_gtfs("calendar_dates.txt")
    }

    /// The service exceptions grouped by service identifier, each group in
    /// its input order.
    pub fn calendar_dates_map(&mut self) -> (res: Result<
        StringMap<Vec<structures::calendar_dates::CalendarDate>>,
        Error,
    >)
        requires
            old(self).wf(),
        ensures
            final(self).wf(),
            final(self).names() == old(self).names(),
            final(self).data() == old(self).data(),
            forall|k: Seq<char>| final(self).mapping(k) == old(self).mapping(k),
            match res {
                Ok(m) => m.wf() && exists|cds: Seq<structures::calendar_dates::CalendarDate>|
                    {
                        &&& table_of::<structures::calendar_dates::CalendarDate>(
                            *old(self),
                            "calendar_dates.txt"@,
                            cds,
                        )
                        &&& forall|k: Seq<char>|
                            match #[trigger] m.spec_get(k) {
                                Some(v) => v@ == structures::calendar_dates::with_service_id(
                                    cds,
                                    k,
                                ) && v@.len() > 0,
                                None => structures::calendar_dates::with_service_id(cds, k).len()
                                    == 0,
                            }
                    },
                Err(e) => match old(self).mapping("calendar_dates.txt"@) {
                    Some(idx) => read_outcome_ok::<structures::calendar_dates::CalendarDate>(
                        *old(self),
                        idx as int,
                        "calendar_dates.txt"@,
                        Err(e),
                    ),
                    None => e.deep_view() == ErrorV::FileNotFound("calendar_dates.txt"@),
                },
            },
    {
        let cds = match self.calendar_dates() {
            Ok(v) => v,
            Err(e) => {
                return Err(e);
            },
        };
        let ghost gcds = cds@;
        let mut cds = cds;
        let mut m: StringMap<Vec<structures::calendar_dates::CalendarDate>> = StringMap::new();
        let n = cds.len();
        let mut i: usize = 0;
        while i < n
            invariant
                n == gcds.len(),
                0 <= i <= n,
                cds@ == gcds.skip(i as int),
                m.wf(),
                forall|k: Seq<char>|
                    match #[trigger] m.spec_get(k) {
                        Some(v) => v@ == structures::calendar_dates::with_service_id(
                            gcds.take(i as int),
                            k,
                        ) && v@.len() > 0,
                        None => structures::calendar_dates::with_service_id(
                            gcds.take(i as int),
                            k,
                        ).len() == 0,
                    },
            decreases n - i,
        {
            proof {
                assert(gcds.skip(i as int)[0] == gcds[i as int]);
                assert(gcds.skip(i as int).subrange(1, gcds.skip(i as int).len() as int)
                    =~= gcds.skip(i as int + 1));
                assert(gcds.take(i + 1) =~= gcds.take(i as int).push(gcds[i as int]));
            }
            let cd = cds.remove(0);
            let ghost kv = cd.service_id@;
            proof {
                structures::calendar_dates::lemma_with_service_id_push(
                    gcds.take(i as int),
                    gcds[i as int],
                    kv,
                );
            }
            match m.index_of(cd.service_id.as_str()) {
                Some(ix) => {
                    let ghost k0 = m.keys()[ix as int];
                    let mut v = m.replace_value_at(ix, Vec::new());
                    v.push(cd);
                    let emptied = m.replace_value_at(ix, v);
                    proof {
                        assert(emptied@.len() == 0);
                        assert forall|k: Seq<char>|
                            match #[trigger] m.spec_get(k) {
                                Some(v2) => v2@ == structures::calendar_dates::with_service_id(
                                    gcds.take(i + 1),
                                    k,
                                ) && v2@.len() > 0,
                                None => structures::calendar_dates::with_service_id(
                                    gcds.take(i + 1),
                                    k,
                                ).len() == 0,
                            } by {
                            if k != kv {
                                structures::calendar_dates::lemma_with_service_id_push(
                                    gcds.take(i as int),
                                    gcds[i as int],
                                    k,
                                );
                            }
                        }
                    }
                },
                None => {
                    let key = cd.service_id.clone();
                    let mut nv: Vec<structures::calendar_dates::CalendarDate> = Vec::new();
                    nv.push(cd);
                    m.insert(key, nv);
                    proof {
                        assert forall|k: Seq<char>|
                            match #[trigger] m.spec_get(k) {
                                Some(v2) => v2@ == structures::calendar_dates::with_service_id(
                                    gcds.take(i + 1),
                                    k,
                                ) && v2@.len() > 0,
                                None => structures::calendar_dates::with_service_id(
                                    gcds.take(i + 1),
                                    k,
                                ).len() == 0,
                            } by {
                            if k != kv {
                                structures::calendar_dates::lemma_with_service_id_push(
                                    gcds.take(i as int),
                                    gcds[i as int],
                                    k,
                                );
                            } else {
                                assert(structures::calendar_dates::with_service_id(
                                    gcds.take(i as int),
                                    kv,
                                ) =~= Seq::<structures::calendar_dates::CalendarDate>::empty());
                            }
                        }
                    }
                },
            }
            i += 1;
        }
        proof {
            assert(gcds.take(n as int) =~= gcds);
            assert(table_of::<structures::calendar_dates::CalendarDate>(
                *old(self),
                "calendar_dates.txt"@,
                gcds,
            ));
        }
        Ok(m)
    }

    /// The fare classes of the dataset.
    pub fn fare_attributes(&mut self) -> (res: Result<
        Vec<structures::fare_attributes::FareAttribute>,
        Error,
    >)
        requires
            old(self).wf(),
        ensures
            reads::<structures::fare_attributes::FareAttribute>(
                *old(self),
                *final(self),
                "fare_attributes.txt"@,
                res,
            ),
    {
        self.read_gtfs("fare_attributes.txt")
    }

    /// The fare rules of the dataset.
    pub fn fare_rules(&mut self) -> (res: Result<Vec<structures::fare_rules::FareRule>, Error>)
        requires
            old(self).wf(),
        ensures
            reads::<structures::fare_rules::FareRule>(
                *old(self),
                *final(self),
                "fare_rules.txt"@,
                res,
            ),
    {
        self.read_gtfs("fare_rules.txt")
    }

    /// The dataset's publisher information.
    pub fn feed_info(&mut self) -> (res: Result<Vec<structures::feed_info::FeedInfo>, Error>)
        requires
            old(self).wf(),
        ensures
            reads::<structures::feed_info::FeedInfo>(
                *old(self),
                *final(self),
                "feed_info.txt"@,
                res,
            ),
    {
        self.read_gtfs("feed_info.txt")
    }

    /// The headway-based services of the dataset.
    pub fn frequencies(&mut self) -> (res: Result<Vec<structures::frequencies::Frequency>, Error>)
        requires
            old(self).wf(),
        ensures
            reads::<structures::frequencies::Frequency>(
                *old(self),
                *final(self),
                "frequencies.txt"@,
                res,
            ),
    {
        self.read_gtfs("frequencies.txt")
    }

    /// The station levels of the dataset.
    pub fn levels(&mut self) -> (res: Result<Vec<structures::levels::Level>, Error>)
        requires
            old(self).wf(),
        ensures
            reads::<structures::levels::Level>(*old(self), *final(self), "levels.txt"@, res),
    {
        self.read_gtfs("levels.txt")
    }

    /// The station pathways of the dataset.
    pub fn pathways(&mut self) -> (res: Result<Vec<structures::pathways::Pathway>, Error>)
        requires
            old(self).wf(),
        ensures
            reads::<structures::pathways::Pathway>(*old(self), *final(self), "pathways.txt"@, res),
    {
        self.read_gtfs("pathways.txt")
    }

    /// The shape points of the dataset.
    pub fn shapes(&mut self) -> (res: Result<Vec<structures::shapes::Shape>, Error>)
        requires
            old(self).wf(),
        ensures
            reads::<structures::shapes::Shape>(*old(self), *final(self), "shapes.txt"@, res),
    {
        self.read_gtfs("shapes.txt")
    }

    /// The transfer rules of the dataset.
    pub fn transfers(&mut self) -> (res: Result<Vec<structures::transfers::Transfer>, Error>)
        requires
            old(self).wf(),
        ensures
            reads::<structures::transfers::Transfer>(
                *old(self),
                *final(self),
                "transfers.txt"@,
                res,
            ),
    {
        self.read_gtfs("transfers.txt")
    }

    /// The routes of the dataset.
    pub fn routes(&mut self) -> (res: Result<Vec<structures::routes::Route>, Error>)
        requires
            old(self).wf(),
        ensures
            reads::<structures::routes::Route>(*old(self), *final(self), "routes.txt"@, res),
    {
        self.read_gtfs("routes.txt")
    }

    /// The stops of the dataset.
    pub fn stops(&mut self) -> (res: Result<Vec<structures::stops::Stop>, Error>)
        requires
            old(self).wf(),
        ensures
            reads::<structures::stops::Stop>(*old(self), *final(self), "stops.txt"@, res),
    {
        self.read_gtfs("stops.txt")
    }

    /// The stop-time rows of the dataset, before linking.
    pub fn raw_stop_times(&mut self) -> (res: Result<
        Vec<structures::stop_times::RawStopTime>,
        Error,
    >)
        requires
            old(self).wf(),
        ensures
            reads::<structures::stop_times::RawStopTime>(
                *old(self),
                *final(self),
                "stop_times.txt"@,
                res,
            ),
    {
        self.read_gtfs("stop_times.txt")
    }

    /// The trip rows of the dataset, before linking.
    pub fn raw_trips(&mut self) -> (res: Result<Vec<structures::trips::RawTrip>, Error>)
        requires
            old(self).wf(),
        ensures
            reads::<structures::trips::RawTrip>(*old(self), *final(self), "trips.txt"@, res),
    {
        self.read_gtfs("trips.txt")
    }

    /// Decodes a table into a caller-defined record shape against the already
    /// resolved archive entries, so columns outside the built-in schemas can
    /// be read without extending them. A name the index does not hold fails
    /// as not found.
    pub fn custom<T: FromRow>(&mut self, filename: &str) -> (res: Result<Vec<T>, Error>)
        requires
            old(self).wf(),
        ensures
            final(self).wf(),
            final(self).names() == old(self).names(),
            final(self).data() == old(self).data(),
            final(self).entry_opens() == old(self).entry_opens(),
            final(self).entry_reads() == old(self).entry_reads(),
            forall|k: Seq<char>| final(self).mapping(k) == old(self).mapping(k),
            match old(self).mapping(filename@) {
                Some(idx) => custom_outcome_ok::<T>(*old(self), idx as int, filename@, res),
                None => res matches Err(e) && e.deep_view() == ErrorV::FileNotFound(filename@),
            },
    {
        let index = match self.file_mappings.get(filename) {
            Some(i) => *i,
            None => {
                return Err(Error::FileNotFound(filename.to_owned()));
            },
        };
        proof {
            let m = self.file_mappings;
            assert(m.contains_key(filename@));
            assert(exists|j: int| 0 <= j < m.keys().len() && m.keys()[j] == filename@);
            let ki = m.key_index(filename@);
            assert(0 <= ki < m.keys().len() && m.keys()[ki] == filename@);
            assert(index == m.values()[ki]);
            assert(index < self.names().len());
        }
        let data = match zip_entry_data(&mut self.archive, index) {
            Ok(d) => d,
            Err(ZipReadFailure::Open(_)) => {
                let msg = String::from_str("Missing file: ").concat(filename);
                return Err(Error::FileNotFound(msg));
            },
            Err(ZipReadFailure::Read(m)) => {
                return Err(Error::FileReadError { filename: filename.to_owned(), message: m });
            },
        };
        read_table_custom::<T>(filename, data)
    }
}

/// One table accessor's whole behavior: the session's container and index are
/// untouched, and the named table's entry decodes — or fails — as its bytes
/// say; a name the index does not hold fails as not found.
pub open spec fn reads<T: TableRow>(
    pre: GtfsReader,
    post: GtfsReader,
    name: Seq<char>,
    res: Result<Vec<T>, Error>,
) -> bool {
    &&& post.wf()
    &&& post.names() == pre.names()
    &&& post.data() == pre.data()
    &&& post.entry_opens() == pre.entry_opens()
    &&& post.entry_reads() == pre.entry_reads()
    &&& forall|k: Seq<char>| post.mapping(k) == pre.mapping(k)
    &&& match pre.mapping(name) {
        Some(idx) => read_outcome_ok::<T>(pre, idx as int, name, res),
        None => res matches Err(e) && e.deep_view() == ErrorV::FileNotFound(name),
    }
}

/// The error of a table read over the entry at `idx` of session `g`: an
/// entry that does not open fails as not found naming the table; one that
/// opens but does not read to the end fails as a read error naming the
/// table; and a readable entry fails exactly as its bytes' table decode
/// says.
pub open spec fn read_err_ok<T: TableRow>(
    g: GtfsReader,
    idx: int,
    filename: Seq<char>,
    ev: ErrorV,
) -> bool {
    if !g.entry_opens()[idx] {
        ev matches ErrorV::FileNotFound(m) && m == "Missing file: "@ + filename
    } else if !g.entry_reads()[idx] {
        ev matches ErrorV::FileReadError { filename: f, message: _ } && f == filename
    } else {
        !crate::table::table_rows_ok::<T>(g.data()[idx]) && crate::table::table_err_ok::<T>(
            g.data()[idx],
            filename,
            ev,
        )
    }
}

/// What a table read over the entry at `idx` of session `g` returns: the
/// decoded records exactly when the entry reads and every row decodes, and
/// otherwise the one error its failure names.
pub open spec fn read_outcome_ok<T: TableRow>(
    g: GtfsReader,
    idx: int,
    filename: Seq<char>,
    res: Result<Vec<T>, Error>,
) -> bool {
    match res {
        Ok(v) => g.entry_reads()[idx] && crate::table::table_rows_ok::<T>(g.data()[idx])
            && crate::table::table_records_match::<T>(g.data()[idx], v@),
        Err(e) => read_err_ok::<T>(g, idx, filename, e.deep_view()),
    }
}

/// Whether the named table of session `g` is readable — mapped, its entry
/// reads out of the container — and every row decodes under `T`.
pub open spec fn table_readable<T: TableRow>(g: GtfsReader, name: Seq<char>) -> bool {
    g.mapping(name) matches Some(idx) && g.entry_reads()[idx as int]
        && crate::table::table_rows_ok::<T>(g.data()[idx as int])
}

/// Whether `v` is the decoded record sequence of the named, readable table
/// of session `g`.
pub open spec fn table_of<T: TableRow>(g: GtfsReader, name: Seq<char>, v: Seq<T>) -> bool {
    &&& g.mapping(name) matches Some(idx) && g.entry_reads()[idx as int]
        && crate::table::table_rows_ok::<T>(g.data()[idx as int])
        && crate::table::table_records_match::<T>(g.data()[idx as int], v)
}

/// The named table's read failed on session `g`, with exactly its error: not
/// found for an unmapped name or an entry that does not open, a read error
/// for one that does not read, and the bytes' own table decode error else.
pub open spec fn read_failed_with<T: TableRow>(g: GtfsReader, name: Seq<char>, ev: ErrorV) -> bool {
    match g.mapping(name) {
        None => ev == ErrorV::FileNotFound(name),
        Some(idx) => read_err_ok::<T>(g, idx as int, name, ev),
    }
}

/// Whether a mapping holds exactly the stops of a record sequence, shared,
/// keyed by identifier with the last record winning.
pub open spec fn stops_map_of(
    smap: string_map::StringMap<std::sync::Arc<structures::stops::Stop>>,
    ss: Seq<structures::stops::Stop>,
) -> bool {
    &&& smap.wf()
    &&& forall|k: Seq<char>|
        match (#[trigger] smap.spec_get(k), to_map_spec(ss, k)) {
            (Some(a), Some(s)) => a == s,
            (None, None) => true,
            _ => false,
        }
}

/// Whether a trip mapping is the linking of the three decoded tables of a
/// session: one trip per distinct trip identifier, in order of first
/// appearance, each linked as [`structures::trips::linked_trip_ok`] says.
pub open spec fn linked_result_ok(
    g: GtfsReader,
    rts: Seq<structures::trips::RawTrip>,
    rsts: Seq<structures::stop_times::RawStopTime>,
    ss: Seq<structures::stops::Stop>,
    smap: string_map::StringMap<std::sync::Arc<structures::stops::Stop>>,
    m: string_map::StringMap<structures::trips::Trip>,
) -> bool {
    &&& table_of::<structures::trips::RawTrip>(g, "trips.txt"@, rts)
    &&& table_of::<structures::stop_times::RawStopTime>(g, "stop_times.txt"@, rsts)
    &&& table_of::<structures::stops::Stop>(g, "stops.txt"@, ss)
    &&& stops_map_of(smap, ss)
    &&& forall|i: int|
        0 <= i < rsts.len() ==> structures::trips::ref_ok(#[trigger] rsts[i], rts, smap)
    &&& m.keys() == distinct_ids(rts)
    &&& m.values().len() == m.keys().len()
    &&& forall|j: int|
        0 <= j < m.values().len() ==> (#[trigger] m.values()[j]).id@ == m.keys()[j]
    &&& forall|j: int|
        0 <= j < m.values().len() ==> structures::trips::linked_trip_ok(
            #[trigger] m.values()[j],
            rts,
            rsts,
            smap,
        )
}

/// The three tables decoded but linking failed: the error is exactly the
/// reference error of the first stop-time row, in input order, whose trip or
/// stop identifier does not resolve.
pub open spec fn link_failed(
    g: GtfsReader,
    rts: Seq<structures::trips::RawTrip>,
    rsts: Seq<structures::stop_times::RawStopTime>,
    ss: Seq<structures::stops::Stop>,
    smap: string_map::StringMap<std::sync::Arc<structures::stops::Stop>>,
    ev: ErrorV,
) -> bool {
    &&& table_of::<structures::trips::RawTrip>(g, "trips.txt"@, rts)
    &&& table_of::<structures::stop_times::RawStopTime>(g, "stop_times.txt"@, rsts)
    &&& table_of::<structures::stops::Stop>(g, "stops.txt"@, ss)
    &&& stops_map_of(smap, ss)
    &&& exists|i: int|
        {
            &&& 0 <= i < rsts.len()
            &&& !structures::trips::ref_ok(#[trigger] rsts[i], rts, smap)
            &&& forall|j: int|
                0 <= j < i ==> structures::trips::ref_ok(#[trigger] rsts[j], rts, smap)
            &&& ev == structures::trips::ref_err_view(rsts[i], rts)
        }
}

/// The distinct identifiers of records whose identifiers are pairwise
/// distinct are exactly their identifiers, in order.
pub proof fn lemma_distinct_ids_of_distinct<O: Id>(s: Seq<O>)
    requires
        forall|i: int, j: int|
            0 <= i < j < s.len() ==> (#[trigger] s[i]).id_spec() != (#[trigger] s[j]).id_spec(),
    ensures
        distinct_ids(s).len() == s.len(),
        forall|i: int| 0 <= i < s.len() ==> distinct_ids(s)[i] == (#[trigger] s[i]).id_spec(),
    decreases s.len(),
{
    if s.len() > 0 {
        let t = s.drop_last();
        assert(forall|i: int| 0 <= i < t.len() ==> (#[trigger] t[i]).id_spec() == s[i].id_spec());
        lemma_distinct_ids_of_distinct(t);
        assert(!distinct_ids(t).contains(s.last().id_spec())) by {
            if distinct_ids(t).contains(s.last().id_spec()) {
                let w = choose|w: int|
                    0 <= w < distinct_ids(t).len() && distinct_ids(t)[w] == s.last().id_spec();
                assert(distinct_ids(t)[w] == t[w].id_spec());
                assert(t[w] == s[w]);
                assert(s[w].id_spec() == s.last().id_spec());
                assert(s[s.len() - 1] == s.last());
            }
        }
        assert forall|i: int|
            0 <= i < s.len() implies distinct_ids(s)[i] == (#[trigger] s[i]).id_spec() by {
            if i < s.len() - 1 {
                assert(distinct_ids(s)[i] == distinct_ids(t)[i]);
                assert(distinct_ids(t)[i] == t[i].id_spec());
                assert(t[i] == s[i]);
            } else {
                assert(distinct_ids(s)[i] == s.last().id_spec());
                assert(s[s.len() - 1] == s.last());
            }
        }
    }
}

impl GtfsReader {
    /// Reads and links trips, stop times and stops into one mapping from trip
    /// identifier to trip, each trip's stop sequence ordered. Every failure —
    /// a missing or undecodable table, or a stop time naming an unknown trip
    /// or stop — aborts the pass; no partial trip graph comes back.
    pub fn trips(&mut self) -> (res: Result<string_map::StringMap<structures::trips::Trip>, Error>)
        requires
            old(self).wf(),
        ensures
            final(self).wf(),
            final(self).names() == old(self).names(),
            final(self).data() == old(self).data(),
            final(self).entry_opens() == old(self).entry_opens(),
            final(self).entry_reads() == old(self).entry_reads(),
            forall|k: Seq<char>| final(self).mapping(k) == old(self).mapping(k),
            match res {
                Ok(m) => m.wf() && exists|w: (
                    Seq<structures::trips::RawTrip>,
                    Seq<structures::stop_times::RawStopTime>,
                    Seq<structures::stops::Stop>,
                    string_map::StringMap<std::sync::Arc<structures::stops::Stop>>,
                )| linked_result_ok(*old(self), w.0, w.1, w.2, w.3, m),
                Err(e) => {
                    let ev = e.deep_view();
                    ||| read_failed_with::<structures::trips::RawTrip>(
                        *old(self),
                        "trips.txt"@,
                        ev,
                    )
                    ||| (table_readable::<structures::trips::RawTrip>(*old(self), "trips.txt"@)
                        && read_failed_with::<structures::stop_times::RawStopTime>(
                        *old(self),
                        "stop_times.txt"@,
                        ev,
                    ))
                    ||| (table_readable::<structures::trips::RawTrip>(*old(self), "trips.txt"@)
                        && table_readable::<structures::stop_times::RawStopTime>(
                        *old(self),
                        "stop_times.txt"@,
                    ) && read_failed_with::<structures::stops::Stop>(*old(self), "stops.txt"@, ev))
                    ||| exists|w: (
                        Seq<structures::trips::RawTrip>,
                        Seq<structures::stop_times::RawStopTime>,
                        Seq<structures::stops::Stop>,
                        string_map::StringMap<std::sync::Arc<structures::stops::Stop>>,
                    )| link_failed(*old(self), w.0, w.1, w.2, w.3, ev)
                },
            },
    {
        let raw_trips = match self.raw_trips() {
            Ok(v) => v,
            Err(e) => {
                return Err(e);
            },
        };
        let raw_stop_times = match self.raw_stop_times() {
            Ok(v) => v,
            Err(e) => {
                return Err(e);
            },
        };
        let stops_vec = match self.stops() {
            Ok(v) => v,
            Err(e) => {
                return Err(e);
            },
        };
        let ghost grt = raw_trips@;
        let ghost grst = raw_stop_times@;
        let ghost gss = stops_vec@;
        // Share each stop behind one handle, keyed by its identifier.
        let ghost ssv = stops_vec@;
        let mut stops_vec = stops_vec;
        let mut smap: string_map::StringMap<std::sync::Arc<structures::stops::Stop>> =
            string_map::StringMap::new();
        let ns = stops_vec.len();
        let mut i: usize = 0;
        while i < ns
            invariant
                ns == ssv.len(),
                0 <= i <= ns,
                stops_vec@ == ssv.skip(i as int),
                smap.wf(),
                forall|k: Seq<char>|
                    match (#[trigger] smap.spec_get(k), to_map_spec(ssv.take(i as int), k)) {
                        (Some(a), Some(s)) => a == s,
                        (None, None) => true,
                        _ => false,
                    },
            decreases ns - i,
        {
            proof {
                assert(ssv.skip(i as int)[0] == ssv[i as int]);
                assert(ssv.skip(i as int).subrange(1, ssv.skip(i as int).len() as int) =~= ssv.skip(
                    i as int + 1,
                ));
            }
            let s = stops_vec.remove(0);
            let key = String::from_str(s.id());
            let ghost kv = key@;
            smap.insert(key, std::sync::Arc::new(s));
            proof {
                assert(ssv.take(i + 1).drop_last() =~= ssv.take(i as int));
                assert(ssv.take(i + 1).last() == ssv[i as int]);
                assert forall|k: Seq<char>|
                    match (#[trigger] smap.spec_get(k), to_map_spec(ssv.take(i + 1), k)) {
                        (Some(a), Some(s2)) => a == s2,
                        (None, None) => true,
                        _ => false,
                    } by {
                    // Case split: the inserted stop's identifier either is
                    // the looked-up key or is not.
                    if k == kv {
                    } else {
                    }
                }
            }
            i += 1;
        }
        proof {
            assert(ssv.take(ns as int) =~= ssv);
        }
        let ghost smapv = smap;
        let trips_vec = match structures::trips::Trip::create_trips(
            raw_trips,
            raw_stop_times,
            &smap,
        ) {
            Ok(v) => v,
            Err(e) => {
                proof {
                    let witness = (grt, grst, gss, smapv);
                    assert(link_failed(
                        *old(self),
                        witness.0,
                        witness.1,
                        witness.2,
                        witness.3,
                        e.deep_view(),
                    ));
                }
                return Err(e);
            },
        };
        let ghost tvv = trips_vec@;
        let m = to_map(trips_vec);
        let mlen = m.len();
        proof {
            assert(m.values().len() == mlen && m.keys().len() == mlen);
            assert forall|a: int, b: int|
                0 <= a < b < tvv.len() implies (#[trigger] tvv[a]).id_spec() != (
            #[trigger] tvv[b]).id_spec() by {
                assert(tvv.map_values(|t: structures::trips::Trip| t.id@)[a] == tvv[a].id@);
                assert(tvv.map_values(|t: structures::trips::Trip| t.id@)[b] == tvv[b].id@);
                assert(distinct_ids(grt)[a] != distinct_ids(grt)[b]) by {
                    lemma_distinct_ids_distinct_elems(grt, a, b);
                }
            }
            lemma_distinct_ids_of_distinct(tvv);
            assert(m.keys() =~= distinct_ids(grt)) by {
                assert(forall|q: int|
                    0 <= q < tvv.len() ==> distinct_ids(tvv)[q] == (#[trigger] tvv[q]).id_spec());
                assert(forall|q: int|
                    #![auto]
                    0 <= q < tvv.len() ==> tvv.map_values(|t: structures::trips::Trip| t.id@)[q]
                        == tvv[q].id@);
            }
            assert forall|j: int|
                0 <= j < m.values().len() implies structures::trips::linked_trip_ok(
                #[trigger] m.values()[j],
                grt,
                grst,
                smapv,
            ) && m.values()[j].id@ == m.keys()[j] by {
                let k = m.keys()[j];
                assert(m.spec_get(k) == Some(m.values()[j]));
                assert(to_map_spec(tvv, k) == Some(m.values()[j]));
                lemma_to_map_spec_id(tvv, k);
                lemma_to_map_spec_mem(tvv, k);
                let w = choose|w: int| 0 <= w < tvv.len() && tvv[w] == m.values()[j];
            }
            let witness = (grt, grst, gss, smapv);
            assert(linked_result_ok(*old(self), witness.0, witness.1, witness.2, witness.3, m));
            assert(exists|w: (
                Seq<structures::trips::RawTrip>,
                Seq<structures::stop_times::RawStopTime>,
                Seq<structures::stops::Stop>,
                string_map::StringMap<std::sync::Arc<structures::stops::Stop>>,
            )| linked_result_ok(*old(self), w.0, w.1, w.2, w.3, m));
        }
        Ok(m)
    }
}

/// Distinct identifier lists hold no repeats.
pub proof fn lemma_distinct_ids_distinct_elems<O: Id>(s: Seq<O>, a: int, b: int)
    requires
        0 <= a < b < distinct_ids(s).len(),
    ensures
        distinct_ids(s)[a] != distinct_ids(s)[b],
    decreases s.len(),
{
    if s.len() > 0 {
        let rest = distinct_ids(s.drop_last());
        if rest.contains(s.last().id_spec()) {
            lemma_distinct_ids_distinct_elems(s.drop_last(), a, b);
        } else {
            if b < rest.len() {
                lemma_distinct_ids_distinct_elems(s.drop_last(), a, b);
            } else {
                // b names the appended identifier, absent from the rest.
                assert(distinct_ids(s)[b] == s.last().id_spec());
                assert(distinct_ids(s)[a] == rest[a]);
                if rest[a] == s.last().id_spec() {
                    assert(rest.contains(s.last().id_spec()));
                }
            }
        }
    }
}

/// What a caller-defined table read over the entry at `idx` of session `g`
/// returns: as many records as the table has data rows exactly when the
/// entry reads, tokenizes, and the caller's own decoder — the one unverified
/// stage — accepts every row; otherwise the one error its failure names,
/// with the tokenization outcomes pinned by the bytes.
pub open spec fn custom_outcome_ok<T: FromRow>(
    g: GtfsReader,
    idx: int,
    filename: Seq<char>,
    res: Result<Vec<T>, Error>,
) -> bool {
    ({
        let b = crate::table::strip_bom_spec(g.data()[idx]);
        match res {
            Ok(v) => g.entry_reads()[idx] && crate::table::csv_header_of(b) is Some
                && crate::table::csv_records_of(b) is Some && v@.len()
                == crate::table::csv_records_of(b).unwrap().len(),
            Err(e) => {
                let ev = e.deep_view();
                if !g.entry_opens()[idx] {
                    ev matches ErrorV::FileNotFound(m) && m == "Missing file: "@ + filename
                } else if !g.entry_reads()[idx] {
                    ev matches ErrorV::FileReadError { filename: f, message: _ } && f == filename
                } else if crate::table::csv_header_of(b) is None {
                    crate::table::is_tokenize_err(ev, filename, None)
                } else if crate::table::csv_records_of(b) is None {
                    crate::table::is_tokenize_err(
                        ev,
                        filename,
                        Some(
                            error::LineErrorV {
                                headers: crate::table::csv_header_of(b).unwrap(),
                                values: Seq::<Seq<char>>::empty(),
                            },
                        ),
                    )
                } else {
                    crate::table::caller_decode_err(
                        crate::table::csv_header_of(b).unwrap(),
                        crate::table::csv_records_of(b).unwrap(),
                        filename,
                        ev,
                    )
                }
            },
        }
    })
}

} // verus!
