//! The list of chat tabs: lookup by id, removal, and the list a session
//! starts from.

use vstd::prelude::*;

use crate::chat::{messages_view, tabs_view, ChatTab, TabView};
use crate::models::{vision_model, vision_model_string};
use crate::settings::{default_temp, default_top_p, DEFAULT_TEMPERATURE_BITS, DEFAULT_TOP_P_BITS};

verus! {

/// `i` is the first position of a tab with id `id`.
pub open spec fn is_first_with_id(tabs: Seq<TabView>, id: usize, i: int) -> bool {
    &&& 0 <= i < tabs.len()
    &&& tabs[i].id == id
    &&& forall|j: int| 0 <= j < i ==> tabs[j].id != id
}

/// The position of the first tab with id `id`, if there is one.
pub open spec fn index_of_id(tabs: Seq<TabView>, id: usize) -> Option<int> {
    if exists|i: int| is_first_with_id(tabs, id, i) {
        Some(choose|i: int| is_first_with_id(tabs, id, i))
    } else {
        None
    }
}

/// There is at most one first position.
pub proof fn lemma_first_with_id_unique(tabs: Seq<TabView>, id: usize, i: int)
    requires
        is_first_with_id(tabs, id, i),
    ensures
        index_of_id(tabs, id) == Some(i),
{
    let k = choose|k: int| is_first_with_id(tabs, id, k);
    assert(is_first_with_id(tabs, id, k));
    if k < i {
        assert(tabs[k].id != id);
    }
    if i < k {
        assert(tabs[i].id != id);
    }
}

/// The position found is that of the first tab with the id.
pub proof fn lemma_index_of_id_bounds(tabs: Seq<TabView>, id: usize)
    ensures
        index_of_id(tabs, id) matches Some(i) ==> is_first_with_id(tabs, id, i),
        index_of_id(tabs, id) is None ==> forall|j: int| 0 <= j < tabs.len() ==> tabs[j].id != id,
{
    if index_of_id(tabs, id) is None {
        assert forall|j: int| 0 <= j < tabs.len() implies tabs[j].id != id by {
            if tabs[j].id == id {
                let k = first_with_id_below(tabs, id, j);
                assert(is_first_with_id(tabs, id, k));
            }
        }
    }
}

/// If some tab up to position `j` has the id, there is a first one.
proof fn first_with_id_below(tabs: Seq<TabView>, id: usize, j: int) -> (k: int)
    requires
        0 <= j < tabs.len(),
        tabs[j].id == id,
    ensures
        is_first_with_id(tabs, id, k),
    decreases j,
{
    if exists|m: int| 0 <= m < j && tabs[m].id == id {
        let m = choose|m: int| 0 <= m < j && tabs[m].id == id;
        first_with_id_below(tabs, id, m)
    } else {
        j
    }
}

/// The position of the first tab with id `id`.
pub fn find_tab(tabs: &Vec<ChatTab>, id: usize) -> (r: Option<usize>)
    ensures
        match r {
            Some(i) => index_of_id(tabs_view(tabs@), id) == Some(i as int),
            None => index_of_id(tabs_view(tabs@), id) is None,
        },
{
    let mut i: usize = 0;
    while i < tabs.len()
        invariant
            i <= tabs@.len(),
            forall|j: int| 0 <= j < i ==> tabs@[j].id != id,
        decreases tabs@.len() - i,
    {
        if tabs[i].id == id {
            proof {
                lemma_first_with_id_unique(tabs_view(tabs@), id, i as int);
            }
            return Some(i);
        }
        i = i + 1;
    }
    proof {
        if exists|k: int| is_first_with_id(tabs_view(tabs@), id, k) {
            let k = choose|k: int| is_first_with_id(tabs_view(tabs@), id, k);
            assert(tabs@[k].id == id);
        }
    }
    None
}

/// `tabs` without the tabs whose id is `id`, the others in their order.
pub open spec fn without_id(tabs: Seq<TabView>, id: usize) -> Seq<TabView>
    decreases tabs.len(),
{
    if tabs.len() == 0 {
        tabs
    } else if tabs.last().id == id {
        without_id(tabs.drop_last(), id)
    } else {
        without_id(tabs.drop_last(), id).push(tabs.last())
    }
}

pub proof fn lemma_tabs_view_push(v: Seq<ChatTab>, t: ChatTab)
    ensures
        tabs_view(v.push(t)) == tabs_view(v).push(t@),
{
    assert(tabs_view(v.push(t)) =~= tabs_view(v).push(t@));
}

/// Every tab that remains after a removal was in the list before.
pub proof fn lemma_without_id_subset(tabs: Seq<TabView>, id: usize)
    ensures
        forall|k: int|
            0 <= k < without_id(tabs, id).len() ==> exists|j: int|
                0 <= j < tabs.len() && tabs[j] == #[trigger] without_id(tabs, id)[k],
        forall|k: int| 0 <= k < without_id(tabs, id).len() ==> #[trigger] without_id(tabs, id)[k].id != id,
    decreases tabs.len(),
{
    if tabs.len() > 0 {
        let rest = tabs.drop_last();
        lemma_without_id_subset(rest, id);
        let w = without_id(tabs, id);
        assert forall|k: int| 0 <= k < w.len() implies exists|j: int|
            0 <= j < tabs.len() && tabs[j] == #[trigger] w[k] by {
            if k < without_id(rest, id).len() {
                let j = choose|j: int| 0 <= j < rest.len() && rest[j] == without_id(rest, id)[k];
                assert(tabs[j] == w[k]);
            } else {
                assert(tabs[tabs.len() - 1] == w[k]);
            }
        }
        assert forall|k: int| 0 <= k < w.len() implies #[trigger] w[k].id != id by {
            if k < without_id(rest, id).len() {
                assert(w[k] == without_id(rest, id)[k]);
            }
        }
    }
}

/// Removes every tab whose id is `id`.
pub fn remove_tab(tabs: Vec<ChatTab>, id: usize) -> (r: Vec<ChatTab>)
    ensures
        tabs_view(r@) == without_id(tabs_view(tabs@), id),
{
    let mut kept: Vec<ChatTab> = Vec::new();
    let n = tabs.len();
    let mut i: usize = 0;
    while i < n
        invariant
            i <= n,
            n == tabs@.len(),
            tabs_view(kept@) == without_id(tabs_view(tabs@.take(i as int)), id),
        decreases n - i,
    {
        let ghost before = tabs_view(tabs@.take(i as int));
        assert(tabs_view(tabs@.take(i + 1)).drop_last() =~= before);
        assert(tabs_view(tabs@.take(i + 1)).last() == tabs@[i as int]@);
        if tabs[i].id != id {
            let t = tabs[i].clone();
            proof {
                lemma_tabs_view_push(kept@, t);
            }
            kept.push(t);
        }
        i = i + 1;
    }
    assert(tabs@.take(n as int) =~= tabs@);
    kept
}

/// The tab a session starts with when no conversation was saved.
pub open spec fn starter_tab() -> TabView {
    TabView {
        id: 0,
        title: "New Chat"@,
        messages: Seq::empty(),
        selected_model: vision_model(),
        system_prompt: Seq::empty(),
        temperature_bits: DEFAULT_TEMPERATURE_BITS,
        top_p_bits: DEFAULT_TOP_P_BITS,
    }
}

/// The tabs a session starts with when no conversation was saved.
pub fn default_tabs() -> (r: Vec<ChatTab>)
    ensures
        tabs_view(r@) == seq![starter_tab()],
{
    let messages: Vec<crate::chat::Message> = Vec::new();
    let t = ChatTab {
        id: 0,
        title: String::from_str("New Chat"),
        messages,
        selected_model: vision_model_string(),
        system_prompt: String::new(),
        temperature_bits: default_temp(),
        top_p_bits: default_top_p(),
    };
    assert(messages_view(t.messages@) =~= Seq::empty());
    let mut v: Vec<ChatTab> = Vec::new();
    v.push(t);
    assert(tabs_view(v@) =~= seq![starter_tab()]);
    v
}

/// The tabs to start a session with: the saved ones, or the starter tab when
/// nothing could be read or the saved list is empty.
pub open spec fn restored_tabs(saved: Option<Seq<TabView>>) -> Seq<TabView> {
    match saved {
        Some(tabs) => if tabs.len() > 0 {
            tabs
        } else {
            seq![starter_tab()]
        },
        None => seq![starter_tab()],
    }
}

/// The tabs to start a session with, given the saved tabs (`None` when the
/// file could not be read or decoded).
pub fn tabs_or_default(saved: Option<Vec<ChatTab>>) -> (r: Vec<ChatTab>)
    ensures
        tabs_view(r@) == restored_tabs(
            match saved {
                Some(v) => Some(tabs_view(v@)),
                None => None,
            },
        ),
{
    match saved {
        Some(tabs) => {
            if tabs.len() > 0 {
                tabs
            } else {
                default_tabs()
            }
        },
        None => default_tabs(),
    }
}

/// The largest id among `tabs`, or 0 when there is none.
pub open spec fn max_id(tabs: Seq<TabView>) -> usize
    decreases tabs.len(),
{
    if tabs.len() == 0 {
        0
    } else {
        let m = max_id(tabs.drop_last());
        if tabs.last().id > m {
            tabs.last().id
        } else {
            m
        }
    }
}

/// Every tab id is at most `max_id`.
pub proof fn lemma_max_id_bounds(tabs: Seq<TabView>)
    ensures
        forall|i: int| 0 <= i < tabs.len() ==> #[trigger] tabs[i].id <= max_id(tabs),
    decreases tabs.len(),
{
    if tabs.len() > 0 {
        lemma_max_id_bounds(tabs.drop_last());
        assert forall|i: int| 0 <= i < tabs.len() implies #[trigger] tabs[i].id <= max_id(tabs) by {
            if i < tabs.len() - 1 {
                assert(tabs[i] == tabs.drop_last()[i]);
            }
        }
    }
}

/// The largest tab id, or 0 when there is no tab.
pub fn max_tab_id(tabs: &Vec<ChatTab>) -> (r: usize)
    ensures
        r == max_id(tabs_view(tabs@)),
{
    let mut m: usize = 0;
    let mut i: usize = 0;
    while i < tabs.len()
        invariant
            i <= tabs@.len(),
            m == max_id(tabs_view(tabs@.take(i as int))),
        decreases tabs@.len() - i,
    {
        assert(tabs_view(tabs@.take(i + 1)).drop_last() =~= tabs_view(tabs@.take(i as int)));
        if tabs[i].id > m {
            m = tabs[i].id;
        }
        i = i + 1;
    }
    assert(tabs@.take(tabs@.len() as int) =~= tabs@);
    m
}

} // verus!
