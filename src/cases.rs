pub mod uppercase;
pub mod screamingsnakecase;
