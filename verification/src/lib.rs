//! Core of a small housing-records form application: the record cache, the
//! per-field filter predicate, the selection list model and the form state
//! controller that ties them together. Persistence and the widget toolkit
//! live outside this crate and talk to it through plain values.

pub mod controller;
pub mod filter;
pub mod house;
pub mod numtext;
pub mod select;
pub mod store;

pub use controller::Controller;
pub use controller::FieldFlags;
pub use controller::FormFields;
pub use controller::SaveAction;
pub use filter::Filter;
pub use filter::Range;
pub use filter::Text;
pub use house::Error;
pub use house::House;
pub use numtext::test_positive_and_zero_number;
pub use select::SelectionList;
pub use store::Store;
