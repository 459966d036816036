pub mod albums;
pub mod artwork;
pub mod cd_import;
pub mod cell_registry;
pub mod chart;
pub mod commands;
pub mod consolidation;
pub mod device_panel;
pub mod devices_section;
pub mod duplicates;
pub mod generations;
pub mod keyed;
pub mod library;
pub mod missing_track;
pub mod notices;
pub mod now_playing;
pub mod pages;
pub mod paths;
pub mod playback;
pub mod playlists;
pub mod reorder;
pub mod row_change;
pub mod search;
pub mod seqs;
pub mod sidebar;
pub mod sorting;
pub mod startup;
pub mod tasks;
pub mod text;
pub mod window;
pub mod worker_results;
