//! Interface materialization: detecting a component's legacy interface
//! file, taking the external parser's answer for it, and folding both
//! metadata origins into one interface model — the legacy declarations
//! first, the in-binary ones after them.
//!
//! The legacy interface parser is an external collaborator: reading a
//! file and parsing its text happen outside this crate, and the run is
//! handed the parser's answers as values, one per file it could read.

use vstd::prelude::*;
use vstd::string::StringExecFns;
use crate::interface::{spec_add_records, InterfaceModel, SpecInterfaceModel};
use crate::model::{
    result_view, Error, MetadataRecord, SpecComponentGroup, SpecErrorValue, SpecMetadataRecord,
    ComponentGroup, SpecUdlParseOutcome, UdlParseOutcome,
};

verus! {

/// How many records of the group declare a legacy interface file.
pub open spec fn spec_udl_count(records: Seq<SpecMetadataRecord>) -> nat
    decreases records.len(),
{
    if records.len() == 0 {
        0
    } else {
        (if records[0] is UdlFile {
            1nat
        } else {
            0nat
        }) + spec_udl_count(records.drop_first())
    }
}

/// The file name carried by the first legacy-file declaration, if any.
pub open spec fn spec_first_udl_name(records: Seq<SpecMetadataRecord>) -> Option<Seq<char>>
    decreases records.len(),
{
    if records.len() == 0 {
        None
    } else {
        match records[0] {
            SpecMetadataRecord::UdlFile { name } => Some(name),
            SpecMetadataRecord::Decl { symbol } => spec_first_udl_name(records.drop_first()),
        }
    }
}

/// Appending one record extends the count and the first name in the
/// obvious way.
proof fn lemma_udl_scan_extend(records: Seq<SpecMetadataRecord>, r: SpecMetadataRecord)
    ensures
        spec_udl_count(records.push(r)) == spec_udl_count(records) + (if r is UdlFile {
            1nat
        } else {
            0nat
        }),
        spec_first_udl_name(records.push(r)) == (if spec_first_udl_name(records) is Some {
            spec_first_udl_name(records)
        } else {
            match r {
                SpecMetadataRecord::UdlFile { name } => Some(name),
                SpecMetadataRecord::Decl { symbol } => None,
            }
        }),
    decreases records.len(),
{
    if records.len() == 0 {
        assert(records.push(r).drop_first() =~= records);
    } else {
        assert(records.push(r).drop_first() =~= records.drop_first().push(r));
        lemma_udl_scan_extend(records.drop_first(), r);
    }
}

/// The conventional location of a component's legacy interface file:
/// `src/<name>.udl` inside the crate root.
pub open spec fn spec_udl_path(crate_root: Seq<char>, name: Seq<char>) -> Seq<char> {
    crate_root + "/src/"@ + name + ".udl"@
}

/// The conventional location of a component's legacy interface file.
fn udl_path(crate_root: &String, name: &String) -> (r: String)
    ensures
        r@ == spec_udl_path(crate_root@, name@),
{
    let mut r = crate_root.clone();
    r.append("/src/");
    r.append(name.as_str());
    r.append(".udl");
    r
}

/// The parser's answer filed under `path`, if the run could read that
/// file: the store is a sequence of (path, answer) pairs, scanned from
/// the front. A path with no entry is a file the run could not read.
pub open spec fn spec_lookup_udl(
    files: Seq<(Seq<char>, SpecUdlParseOutcome)>,
    path: Seq<char>,
) -> Option<SpecUdlParseOutcome>
    decreases files.len(),
{
    if files.len() == 0 {
        None
    } else if files[0].0 == path {
        Some(files[0].1)
    } else {
        spec_lookup_udl(files.drop_first(), path)
    }
}

/// A path absent from the front scan stays what it is one entry further in.
proof fn lemma_lookup_udl_step(
    files: Seq<(Seq<char>, SpecUdlParseOutcome)>,
    i: int,
    path: Seq<char>,
)
    requires
        0 <= i < files.len(),
        forall|j: int| 0 <= j < i ==> files[j].0 != path,
    ensures
        spec_lookup_udl(files, path) == spec_lookup_udl(
            files.subrange(i, files.len() as int),
            path,
        ),
    decreases i,
{
    if i > 0 {
        assert(files.drop_first() =~= files.subrange(1, files.len() as int));
        lemma_lookup_udl_step(files.drop_first(), i - 1, path);
        assert(files.drop_first().subrange(i - 1, files.drop_first().len() as int)
            =~= files.subrange(i, files.len() as int));
    } else {
        assert(files.subrange(0, files.len() as int) =~= files);
    }
}

/// A path is unanswered exactly when no entry carries it.
proof fn lemma_lookup_udl_none(files: Seq<(Seq<char>, SpecUdlParseOutcome)>, path: Seq<char>)
    ensures
        (spec_lookup_udl(files, path) is None) <==> (forall|j: int|
            0 <= j < files.len() ==> files[j].0 != path),
    decreases files.len(),
{
    if files.len() > 0 {
        let rest = files.drop_first();
        lemma_lookup_udl_none(rest, path);
        if spec_lookup_udl(files, path) is None {
            assert forall|j: int| 0 <= j < files.len() implies files[j].0 != path by {
                if j > 0 {
                    assert(files[j] == rest[j - 1]);
                }
            }
        } else {
            if files[0].0 != path {
                let j = choose|j: int| 0 <= j < rest.len() && rest[j].0 == path;
                assert(files[j + 1].0 == path);
            }
        }
    }
}

/// The parser's answer filed under `path`, if any.
fn lookup_udl(files: &Vec<(String, UdlParseOutcome)>, path: &String) -> (r: Option<
    UdlParseOutcome,
>)
    ensures
        r.deep_view() == spec_lookup_udl(files.deep_view(), path@),
{
    let n: usize = files.len();
    let mut i: usize = 0;
    while i < n
        invariant
            0 <= i <= n,
            n == files.len(),
            files.deep_view().len() == n,
            forall|j: int| 0 <= j < i ==> files.deep_view()[j].0 != path@,
        decreases n - i,
    {
        proof {
            let ghost e = files@[i as int];
            assert(files.deep_view()[i as int] == (e.0@, e.1.deep_view()));
        }
        if files[i].0.eq(path) {
            proof {
                lemma_lookup_udl_step(files.deep_view(), i as int, path@);
                let ghost fview = files.deep_view();
                assert(fview.subrange(i as int, n as int)[0] == fview[i as int]);
            }
            return Some(files[i].1.clone_outcome());
        }
        i = i + 1;
    }
    proof {
        lemma_lookup_udl_none(files.deep_view(), path@);
    }
    None
}

/// The metadata a component's legacy interface file contributes: none
/// when the group references no such file; the parser's records when
/// it references exactly one and the parser answered for the file at
/// its convention path; and a fatal error when the run could not read
/// the file, the parser rejected it, or more than one is referenced.
pub open spec fn spec_load_udl(
    records: Seq<SpecMetadataRecord>,
    crate_root: Seq<char>,
    crate_name: Seq<char>,
    files: Seq<(Seq<char>, SpecUdlParseOutcome)>,
) -> Result<Option<Seq<SpecMetadataRecord>>, SpecErrorValue> {
    let count = spec_udl_count(records);
    if count == 0 {
        Ok(None)
    } else if count == 1 {
        match spec_first_udl_name(records) {
            Some(name) => {
                let path = spec_udl_path(crate_root, name);
                match spec_lookup_udl(files, path) {
                    Some(outcome) => match outcome {
                        SpecUdlParseOutcome::Parsed { records: parsed } => Ok(Some(parsed)),
                        SpecUdlParseOutcome::Rejected { message } => Err(
                            SpecErrorValue::UdlParseError { crate_name, message },
                        ),
                    },
                    None => Err(SpecErrorValue::UdlFileNotFound { path }),
                }
            },
            None => Ok(None),
        }
    } else {
        Err(SpecErrorValue::MultipleUdlFiles { crate_name, count })
    }
}

/// Load the metadata of the legacy interface file the group references,
/// if it references one. `files` stands for the filesystem and the
/// external parser together: the parser's answer for each legacy
/// interface file this run could read, by path.
pub fn load_udl_metadata(
    records: &Vec<MetadataRecord>,
    crate_root: &String,
    crate_name: &String,
    files: &Vec<(String, UdlParseOutcome)>,
) -> (r: Result<Option<Vec<MetadataRecord>>, Error>)
    ensures
        result_view(r) == spec_load_udl(
            records.deep_view(),
            crate_root@,
            crate_name@,
            files.deep_view(),
        ),
{
    let ghost all = records.deep_view();
    let n: usize = records.len();
    let mut count: usize = 0;
    let mut first_name: Option<String> = None;
    let mut i: usize = 0;
    proof {
        assert(all.subrange(0, 0) =~= Seq::<SpecMetadataRecord>::empty());
    }
    while i < n
        invariant
            0 <= i <= n,
            n == records.len(),
            all == records.deep_view(),
            all.len() == n,
            count <= i,
            count == spec_udl_count(all.subrange(0, i as int)),
            first_name.deep_view() == spec_first_udl_name(all.subrange(0, i as int)),
        decreases n - i,
    {
        proof {
            assert(all.subrange(0, i + 1) =~= all.subrange(0, i as int).push(all[i as int]));
            lemma_udl_scan_extend(all.subrange(0, i as int), all[i as int]);
            assert(all[i as int] == records@[i as int].deep_view());
        }
        match &records[i] {
            MetadataRecord::UdlFile { name } => {
                count = count + 1;
                if first_name.is_none() {
                    first_name = Some(name.clone());
                }
            },
            MetadataRecord::Decl { symbol } => {},
        }
        i = i + 1;
    }
    proof {
        assert(all.subrange(0, n as int) =~= all);
    }
    if count == 0 {
        Ok(None)
    } else if count == 1 {
        match first_name {
            Some(name) => {
                let path = udl_path(crate_root, &name);
                match lookup_udl(files, &path) {
                    Some(outcome) => match outcome {
                        UdlParseOutcome::Parsed { records: parsed } => Ok(Some(parsed)),
                        UdlParseOutcome::Rejected { message } => Err(
                            Error::UdlParseError { crate_name: crate_name.clone(), message },
                        ),
                    },
                    None => Err(Error::UdlFileNotFound { path }),
                }
            },
            None => Ok(None),
        }
    } else {
        Err(Error::MultipleUdlFiles { crate_name: crate_name.clone(), count })
    }
}

/// The unified interface model of one component: an empty model for the
/// group's crate identity, the legacy interface file's records folded
/// in first when the group references one, the group's own records
/// folded in after them. Any failure — an unreadable or rejected
/// legacy file, more than one legacy reference, or a symbol redeclared
/// during a fold — aborts materialization.
pub open spec fn spec_materialize(
    group: SpecComponentGroup,
    crate_root: Seq<char>,
    files: Seq<(Seq<char>, SpecUdlParseOutcome)>,
) -> Result<SpecInterfaceModel, SpecErrorValue> {
    let base = SpecInterfaceModel {
        namespace: group.crate_name,
        symbols: Seq::<Seq<char>>::empty(),
    };
    match spec_load_udl(group.records, crate_root, group.crate_name, files) {
        Ok(udl_records) => {
            let with_udl = match udl_records {
                Some(parsed) => spec_add_records(base, parsed),
                None => Ok(base),
            };
            match with_udl {
                Ok(m) => spec_add_records(m, group.records),
                Err(e) => Err(e),
            }
        },
        Err(e) => Err(e),
    }
}

/// A component group that references no legacy interface file builds
/// its interface model from the in-binary records alone, whatever the
/// file store holds.
pub proof fn lemma_materialize_without_udl(
    group: SpecComponentGroup,
    crate_root: Seq<char>,
    files: Seq<(Seq<char>, SpecUdlParseOutcome)>,
)
    requires
        spec_udl_count(group.records) == 0,
    ensures
        spec_materialize(group, crate_root, files) == spec_add_records(
            SpecInterfaceModel { namespace: group.crate_name, symbols: Seq::<Seq<char>>::empty() },
            group.records,
        ),
{
}

/// Build the unified interface model of one component group.
pub fn materialize_interface(
    group: &ComponentGroup,
    crate_root: &String,
    files: &Vec<(String, UdlParseOutcome)>,
) -> (r: Result<InterfaceModel, Error>)
    ensures
        result_view(r) == spec_materialize(group.deep_view(), crate_root@, files.deep_view()),
{
    let udl_records = match load_udl_metadata(
        &group.records,
        crate_root,
        &group.crate_name,
        files,
    ) {
        Ok(u) => u,
        Err(e) => {
            return Err(e);
        },
    };
    let mut model = InterfaceModel::new(group.crate_name.clone());
    match udl_records {
        Some(parsed) => match model.add_records(&parsed) {
            Ok(()) => {},
            Err(e) => {
                return Err(e);
            },
        },
        None => {},
    }
    match model.add_records(&group.records) {
        Ok(()) => Ok(model),
        Err(e) => Err(e),
    }
}

} // verus!
