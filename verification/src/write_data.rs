//! What is handed to the engine to be written.

use vstd::prelude::*;

use crate::old_values::{OldValues, OldValuesView};
use crate::txn::{Modify, ModifyView};

verus! {

/// What goes along with the changes of a transaction.
#[derive(Debug, PartialEq, Eq)]
pub struct TxnExtra {
    pub old_values: OldValues,
    /// Whether the transaction commits in one phase.
    pub one_pc: bool,
    pub allowed_in_flashback: bool,
}

/// What a [`TxnExtra`] holds.
pub struct TxnExtraView {
    pub old_values: OldValuesView,
    pub one_pc: bool,
    pub allowed_in_flashback: bool,
}

impl DeepView for TxnExtra {
    type V = TxnExtraView;

    open spec fn deep_view(&self) -> TxnExtraView {
        TxnExtraView {
            old_values: self.old_values@,
            one_pc: self.one_pc,
            allowed_in_flashback: self.allowed_in_flashback,
        }
    }
}

/// Changes, and what goes along with them.
#[derive(Debug, PartialEq, Eq)]
pub struct WriteData {
    pub modifies: Vec<Modify>,
    pub extra: TxnExtra,
}

/// What a [`WriteData`] holds.
pub struct WriteDataView {
    pub modifies: Seq<ModifyView>,
    pub extra: TxnExtraView,
}

impl DeepView for WriteData {
    type V = WriteDataView;

    open spec fn deep_view(&self) -> WriteDataView {
        WriteDataView { modifies: self.modifies.deep_view(), extra: self.extra.deep_view() }
    }
}

impl WriteDataView {
    /// The given changes and old values, of a transaction that neither commits in one phase nor
    /// is allowed while flashing back.
    pub open spec fn plain(
        modifies: Seq<ModifyView>,
        old_values: OldValuesView,
    ) -> WriteDataView {
        WriteDataView {
            modifies,
            extra: TxnExtraView { old_values, one_pc: false, allowed_in_flashback: false },
        }
    }

    /// Nothing to write.
    pub open spec fn nothing() -> WriteDataView {
        WriteDataView::plain(Seq::empty(), OldValuesView::empty())
    }

    /// The given changes with their old values. Old values alone are not written.
    pub open spec fn of(modifies: Seq<ModifyView>, old_values: OldValuesView) -> WriteDataView {
        if modifies.len() > 0 {
            WriteDataView::plain(modifies, old_values)
        } else {
            WriteDataView::nothing()
        }
    }
}

impl Default for WriteData {
    fn default() -> (data: Self)
        ensures
            data.deep_view() == WriteDataView::nothing(),
            data.modifies@.len() == 0,
            data.extra.old_values@ == OldValuesView::empty(),
            !data.extra.one_pc,
            !data.extra.allowed_in_flashback,
            data.extra.old_values.wf(),
    {
        let data = WriteData {
            modifies: Vec::new(),
            extra: TxnExtra {
                old_values: OldValues::new(),
                one_pc: false,
                allowed_in_flashback: false,
            },
        };
        assert(data.modifies.deep_view() =~= Seq::empty());
        data
    }
}

/// What is to be written for the given changes and old values.
pub fn make_write_data(modifies: Vec<Modify>, old_values: OldValues) -> (data: WriteData)
    requires
        old_values.wf(),
    ensures
        data.deep_view() == WriteDataView::of(modifies.deep_view(), old_values@),
        data.modifies.deep_view() == modifies.deep_view(),
        modifies@.len() > 0 ==> data.extra.old_values@ == old_values@,
        modifies@.len() == 0 ==> data.extra.old_values@ == OldValuesView::empty(),
        !data.extra.one_pc,
        !data.extra.allowed_in_flashback,
        data.extra.old_values.wf(),
{
    if !modifies.is_empty() {
        // Whether the transaction commits in one phase is not known while it takes its locks.
        WriteData {
            modifies,
            extra: TxnExtra { old_values, one_pc: false, allowed_in_flashback: false },
        }
    } else {
        assert(modifies.deep_view() =~= Seq::empty());
        WriteData::default()
    }
}

} // verus!
