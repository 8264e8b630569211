//! Composable criteria over a collection of person records.
//!
//! Records are plain values; a criteria is a finite expression tree of
//! attribute tests joined by `And` (sequential narrowing) and `Or`
//! (ordered union).  Evaluation is modelled by spec functions over the
//! records' views, and every executable routine is proved against them.

mod criteria;
pub mod laws;
mod record;

pub use criteria::{ordered_union, views, with_gender, with_marital_status, Criteria};
pub use record::{MaritalStatus, Person, PersonView, Sex};
