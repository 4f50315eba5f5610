//! The change notifier: a record of every successful write.
//!
//! Notifying never fails and never touches the store. The host takes the
//! notices from here and passes them on as it sees fit.

use vstd::prelude::*;
use crate::aggregate::{AggregatedKey, AggregatedValue, KeyModel, ValueModel};

verus! {

/// One change: the key, the value before and the value after.
#[derive(Clone, Debug, PartialEq, Eq)]
pub struct ChangeNotice {
    pub key: AggregatedKey,
    pub old_value: Option<AggregatedValue>,
    pub new_value: AggregatedValue,
}

/// What a notice says.
pub struct NoticeModel {
    pub key: KeyModel,
    pub old_value: Option<ValueModel>,
    pub new_value: ValueModel,
}

/// What an optional value is.
pub open spec fn option_model(value: Option<AggregatedValue>) -> Option<ValueModel> {
    match value {
        Some(v) => Some(v@),
        None => None,
    }
}

impl View for ChangeNotice {
    type V = NoticeModel;

    open spec fn view(&self) -> NoticeModel {
        NoticeModel {
            key: self.key@,
            old_value: option_model(self.old_value),
            new_value: self.new_value@,
        }
    }
}

/// The notices of all successful writes, oldest first.
pub struct ChangeNotifier {
    delivered: Vec<ChangeNotice>,
}

impl View for ChangeNotifier {
    type V = Seq<NoticeModel>;

    closed spec fn view(&self) -> Seq<NoticeModel> {
        self.delivered@.map_values(|n: ChangeNotice| n@)
    }
}

impl ChangeNotifier {
    /// A notifier that has received nothing.
    pub fn new() -> (notifier: ChangeNotifier)
        ensures
            notifier@ == Seq::<NoticeModel>::empty(),
    {
        let notifier = ChangeNotifier { delivered: Vec::new() };
        proof {
            assert(notifier@ =~= Seq::<NoticeModel>::empty());
        }
        notifier
    }

    /// Records that `key` went from `old_value` to `new_value`.
    pub fn notify(
        &mut self,
        key: AggregatedKey,
        old_value: Option<AggregatedValue>,
        new_value: AggregatedValue,
    )
        ensures
            final(self)@ == old(self)@.push(
                NoticeModel {
                    key: key@,
                    old_value: option_model(old_value),
                    new_value: new_value@,
                },
            ),
    {
        self.delivered.push(ChangeNotice { key, old_value, new_value });
        proof {
            assert(self@ =~= old(self)@.push(
                NoticeModel {
                    key: key@,
                    old_value: option_model(old_value),
                    new_value: new_value@,
                },
            ));
        }
    }

    /// How many notices were received.
    pub fn len(&self) -> (n: usize)
        ensures
            n == self@.len(),
    {
        self.delivered.len()
    }

    /// The notice at position `i`, counting from the oldest.
    pub fn get(&self, i: usize) -> (r: Option<&ChangeNotice>)
        ensures
            match r {
                Some(notice) => i < self@.len() && notice@ == self@[i as int],
                None => i >= self@.len(),
            },
    {
        if i < self.delivered.len() {
            Some(&self.delivered[i])
        } else {
            None
        }
    }

    /// The newest notice.
    pub fn last(&self) -> (r: Option<&ChangeNotice>)
        ensures
            match r {
                Some(notice) => self@.len() > 0 && notice@ == self@.last(),
                None => self@.len() == 0,
            },
    {
        let n = self.delivered.len();
        if n > 0 {
            Some(&self.delivered[n - 1])
        } else {
            None
        }
    }
}

} // verus!
