mod password;
mod random;

pub use password::all_printable;
pub use password::avoids;
pub use password::covers_range;
pub use password::excludes_whole_range;
pub use password::generate_password;
pub use password::is_delimiter;
pub use password::lemma_sanitize_idempotent;
pub use password::parse_exclude_chars;
pub use password::printable;
pub use password::sanitize_password;
pub use password::sanitized_from;
pub use password::strip_delimiters;
pub use random::random_ascii;
