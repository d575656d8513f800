pub mod agent;
pub mod agent_contents;
pub mod comic_page_compiler;
pub mod comic_page_contents;
pub mod comic_page_layout;
pub mod comic_visual;
pub mod comic_visual_asset;
pub mod comic_visual_batch;
pub mod comic_visual_batch_commands;
pub mod comic_visual_batch_driver;
pub mod comic_visual_batch_progress;
pub mod comic_visual_batch_replay;
pub mod comic_visual_contents;
pub mod comic_visual_export;
pub mod comic_visual_export_contents;
pub mod comic_visual_render;
pub mod comic_visual_render_contents;
pub mod commands;
pub mod commands_contents;
pub mod config;
pub mod config_contents;
pub mod db;
pub mod db_contents;
pub mod digest;
pub mod external_asset_import;
pub mod external_asset_import_contents;
pub mod gateway;
pub mod image_exchange;
pub mod image_exchange_contents;
pub mod image_files;
pub mod image_files_contents;
pub mod json;
pub mod outside;
pub mod paths;
pub mod reference_board;
pub mod reference_contents;
pub mod sequence;
pub mod text;
pub mod unit;
