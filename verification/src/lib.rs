pub mod convert;
pub mod csv_in;
pub mod doc;
pub mod text;
pub mod xml_out;
