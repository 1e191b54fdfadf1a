//! Conversion of part-of-speech tagged dictionary entries into the Mozc
//! dictionary formats: taxonomy loading and resolution, dialect adapters,
//! user labels, cost normalisation and the deduplicating entry store.
pub mod classes;
pub mod convert;
pub mod cost;
pub mod loader;
pub mod ordered;
pub mod patterns;
pub mod processor;
pub mod store;
pub mod taxonomy;
pub mod text;

pub use classes::{
    create_word_class_mapping, get_user_word_class, get_user_word_class_by_id, search_key,
    WordClassMapping,
};
pub use convert::{convert_to_hiragana, unicode_escape_to_char};
pub use cost::adjust_cost;
pub use loader::{read_id_def, IdDefError};
pub use ordered::{EntryMap, IdTextMap, TextIdMap, TextTextMap};
pub use patterns::{is_japanese, is_kana, is_kigou, is_start_suuji};
pub use processor::{
    add_dict_data, parse_delimiter, process_record, skip_analyze, Config, DefaultProcessor,
    DictValues, DictionaryProcessor, MozcUserDictProcessor, NeologdProcessor, SudachiProcessor,
    UtDictProcessor, WordClassValues,
};
pub use store::{DictionaryData, DictionaryEntry, DictionaryKey};
pub use taxonomy::id_expr;
