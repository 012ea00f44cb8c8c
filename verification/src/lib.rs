//! Bounded, backend-independent media parsing: MPEG-TS demultiplexing, HLS and playlist
//! parsing, URI resolution, codec configuration parsing, and source routing policy.

pub mod bandcamp;
pub mod beam;
pub mod codec;
pub mod duration;
pub mod ebml;
pub mod getyarn;
pub mod hls;
pub mod http_policy;
pub mod media;
pub mod messages;
pub mod mpeg_ts;
pub mod niconico;
pub mod niconico_hls;
pub mod playlist;
pub mod remote_http;
pub mod session;
pub mod route_util;
pub mod soundcloud;
pub mod source;
pub mod text;
pub mod track;
pub mod twitch;
pub mod uri;
pub mod vimeo;
pub mod yandex_download_info;
pub mod yandex_music;
