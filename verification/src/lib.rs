pub mod error;
pub mod export;
pub mod lottery;
pub mod text;
pub mod workbook;
