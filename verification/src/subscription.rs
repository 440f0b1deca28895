//! One user's filter over procurement notices: optional price bounds and
//! optional keyword sets per searchable text field. An absent field places no
//! constraint on its axis.

use vstd::prelude::*;

verus! {

/// A user-defined filter over notices. Every filter field is independently
/// optional; a subscription with all filter fields absent matches every notice.
#[derive(Debug, Clone)]
pub struct Subscription {
    pub id: i32,
    pub id_user: i32,
    pub min_price: Option<i32>,
    pub max_price: Option<i32>,
    pub title_keywords: Option<Vec<String>>,
    pub desc_keywords: Option<Vec<String>>,
    pub additional_info_keywords: Option<Vec<String>>,
}

} // verus!
