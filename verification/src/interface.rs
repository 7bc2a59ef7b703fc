//! The unified interface model of one component, built by folding
//! metadata records — those of the legacy interface file first, then the
//! in-binary ones — into one accumulator.

use vstd::prelude::*;
use crate::model::{Error, MetadataRecord, SpecErrorValue, SpecMetadataRecord};

verus! {

/// The value of an `InterfaceModel`.
pub struct SpecInterfaceModel {
    pub namespace: Seq<char>,
    pub symbols: Seq<Seq<char>>,
}

/// The interface surface of one component: the crate identity it was
/// built for, and the declared symbols in the order they were folded in.
/// Legacy-file declarations come before in-binary ones, so a reader of
/// the model sees base definitions first.
#[derive(Clone, Debug, PartialEq, Eq)]
pub struct InterfaceModel {
    pub namespace: String,
    pub symbols: Vec<String>,
}

impl View for InterfaceModel {
    type V = SpecInterfaceModel;

    open spec fn view(&self) -> SpecInterfaceModel {
        SpecInterfaceModel { namespace: self.namespace@, symbols: self.symbols.deep_view() }
    }
}

impl DeepView for InterfaceModel {
    type V = SpecInterfaceModel;

    open spec fn deep_view(&self) -> SpecInterfaceModel {
        self.view()
    }
}

/// Folding one record: a legacy-file declaration carries no interface
/// surface of its own and leaves the model unchanged; any other record
/// declares its symbol, and redeclaring one already present is a
/// conflict that aborts the run.
pub open spec fn spec_add_record(
    model: SpecInterfaceModel,
    record: SpecMetadataRecord,
) -> Result<SpecInterfaceModel, SpecErrorValue> {
    match record {
        SpecMetadataRecord::UdlFile { name } => Ok(model),
        SpecMetadataRecord::Decl { symbol } => if model.symbols.contains(symbol) {
            Err(SpecErrorValue::MetadataConflict { crate_name: model.namespace, symbol })
        } else {
            Ok(SpecInterfaceModel { namespace: model.namespace, symbols: model.symbols.push(symbol) })
        },
    }
}

/// Folding a sequence of records, left to right, stopping at the first
/// conflict.
pub open spec fn spec_add_records(
    model: SpecInterfaceModel,
    records: Seq<SpecMetadataRecord>,
) -> Result<SpecInterfaceModel, SpecErrorValue>
    decreases records.len(),
{
    if records.len() == 0 {
        Ok(model)
    } else {
        match spec_add_record(model, records[0]) {
            Ok(next) => spec_add_records(next, records.drop_first()),
            Err(e) => Err(e),
        }
    }
}

impl InterfaceModel {
    /// An empty model for one component.
    pub fn new(namespace: String) -> (r: InterfaceModel)
        ensures
            r@.namespace == namespace@,
            r@.symbols == Seq::<Seq<char>>::empty(),
    {
        let r = InterfaceModel { namespace, symbols: Vec::new() };
        proof {
            assert(r@.symbols =~= Seq::<Seq<char>>::empty());
        }
        r
    }

    /// A copy of the model, value for value.
    pub fn clone_model(&self) -> (r: InterfaceModel)
        ensures
            r@ == self@,
    {
        InterfaceModel {
            namespace: self.namespace.clone(),
            symbols: crate::model::clone_strings(&self.symbols),
        }
    }

    /// Whether `symbol` is already declared.
    fn declares(&self, symbol: &String) -> (r: bool)
        ensures
            r == self@.symbols.contains(symbol@),
    {
        let n: usize = self.symbols.len();
        let mut i: usize = 0;
        while i < n
            invariant
                0 <= i <= n,
                n == self.symbols.len(),
                self@.symbols.len() == n,
                forall|j: int| 0 <= j < i ==> self@.symbols[j] != symbol@,
            decreases n - i,
        {
            proof {
                assert(self@.symbols[i as int] == self.symbols@[i as int]@);
            }
            if self.symbols[i].eq(symbol) {
                return true;
            }
            i = i + 1;
        }
        false
    }

    /// Fold one record into the model.
    pub fn add_record(&mut self, record: &MetadataRecord) -> (r: Result<(), Error>)
        ensures
            match spec_add_record(old(self)@, record@) {
                Ok(m) => r is Ok && final(self)@ == m,
                Err(e) => r matches Err(a) && a@ == e && final(self)@ == old(self)@,
            },
    {
        match record {
            MetadataRecord::UdlFile { name } => Ok(()),
            MetadataRecord::Decl { symbol } => {
                if self.declares(symbol) {
                    Err(
                        Error::MetadataConflict {
                            crate_name: self.namespace.clone(),
                            symbol: symbol.clone(),
                        },
                    )
                } else {
                    self.symbols.push(symbol.clone());
                    proof {
                        assert(self@.symbols =~= old(self)@.symbols.push(symbol@));
                    }
                    Ok(())
                }
            },
        }
    }

    /// Fold a sequence of records into the model, left to right,
    /// stopping at the first conflict; on a conflict the model is left
    /// as it was before the call.
    pub fn add_records(&mut self, records: &Vec<MetadataRecord>) -> (r: Result<(), Error>)
        ensures
            match spec_add_records(old(self)@, records.deep_view()) {
                Ok(m) => r is Ok && final(self)@ == m,
                Err(e) => r matches Err(a) && a@ == e,
            },
    {
        let n: usize = records.len();
        proof {
            assert(records.deep_view().subrange(0, n as int) =~= records.deep_view());
        }
        let mut i: usize = 0;
        while i < n
            invariant
                0 <= i <= n,
                n == records.len(),
                records.deep_view().len() == n,
                spec_add_records(old(self)@, records.deep_view()) == spec_add_records(
                    self@,
                    records.deep_view().subrange(i as int, n as int),
                ),
            decreases n - i,
        {
            let ghost rest = records.deep_view().subrange(i as int, n as int);
            proof {
                assert(rest[0] == records.deep_view()[i as int]);
                assert(records.deep_view()[i as int] == records@[i as int].deep_view());
                assert(rest.drop_first() =~= records.deep_view().subrange(i + 1, n as int));
            }
            match self.add_record(&records[i]) {
                Ok(()) => {},
                Err(e) => {
                    return Err(e);
                },
            }
            i = i + 1;
        }
        Ok(())
    }
}

} // verus!
