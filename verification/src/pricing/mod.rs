pub mod estimate;
