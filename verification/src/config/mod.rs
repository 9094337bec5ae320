pub mod theme;
