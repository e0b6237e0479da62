pub mod error;
pub mod file_store;
pub mod lan;
pub mod qr;
pub mod server;
pub mod sharer;
pub mod text;

pub use error::{AddFileError, RemoveError};
pub use file_store::{FileId, FileStore, PathProbe, SharedFile};
pub use lan::{LanIp, SystemLanAddress};
pub use qr::{qr_svg, QrError};
pub use server::{content_disposition, download_reply, escape_html, format_size, percent_encode, render_listing, AppState, DownloadReply};
pub use sharer::{fallback_port, share_url, stop_outcome, ServerInfo, ServerState, SharerError, DEFAULT_PORT};
