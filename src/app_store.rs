//! The page's record of who the local user is and which meeting they join.
use vstd::prelude::*;

verus! {

#[derive(Clone, Debug)]
pub struct AppStore {
    pub name: String,
    pub id: String,
}

impl Default for AppStore {
    fn default() -> (r: Self)
        ensures
            r.name@ == Seq::<char>::empty(),
            r.id@ == Seq::<char>::empty(),
    {
        AppStore { name: String::new(), id: String::new() }
    }
}

/// An update of the store.
#[derive(Clone, Debug)]
pub enum AppMsg {
    SetName(String),
    SetId(String),
}

impl AppMsg {
    /// The store after this update: the named field takes the new value,
    /// the other is kept.
    pub fn apply(self, store: AppStore) -> (r: AppStore)
        ensures
            match self {
                AppMsg::SetName(n) => r.name@ == n@ && r.id@ == store.id@,
                AppMsg::SetId(i) => r.id@ == i@ && r.name@ == store.name@,
            },
    {
        let mut state = store;
        match self {
            AppMsg::SetName(name) => {
                state.name = name;
            },
            AppMsg::SetId(id) => {
                state.id = id;
            },
        }
        state
    }
}

} // verus!
