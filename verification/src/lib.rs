pub mod doc;
pub mod editor;
pub mod escape;
pub mod highlighting;
pub mod row;
pub mod segment;

pub use doc::Doc;
pub use editor::Editor;
pub use editor::Key;
pub use editor::Position;
pub use editor::Size;
pub use editor::StatusMessage;
pub use editor::truncate_chars;
pub use highlighting::Class;
pub use highlighting::Rgb;
pub use row::Row;
