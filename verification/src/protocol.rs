//! Message and settings types exchanged between the two peers.
use vstd::prelude::*;

verus! {

/// Protocol version for backward compatibility.
pub const PROTOCOL_VERSION: u32 = 1;

/// Service type for mDNS discovery.
pub const SERVICE_TYPE: &'static str = "_mac2win._tcp.local.";

/// TCP port of the control channel.
pub const CONTROL_PORT: u16 = 51200;

/// UDP port of the video stream.
pub const VIDEO_PORT: u16 = 51201;

/// UDP port of the input events.
pub const INPUT_PORT: u16 = 51202;

/// UDP port of the clipboard content.
pub const CLIPBOARD_PORT: u16 = 51203;

/// UDP port of the audio stream.
pub const AUDIO_PORT: u16 = 51204;

/// Operating system of a peer.
#[derive(Debug, Clone, Copy, PartialEq, Eq, Structural)]
pub enum OperatingSystem {
    Windows,
    MacOS,
    Linux,
}

/// The operating system that a compile target's OS name (as in `std::env::consts::OS`)
/// stands for: `"windows"` and `"macos"` are recognised, anything else counts as Linux.
pub open spec fn os_for_target(target_os: Seq<char>) -> OperatingSystem {
    if target_os == "windows"@ {
        OperatingSystem::Windows
    } else if target_os == "macos"@ {
        OperatingSystem::MacOS
    } else {
        OperatingSystem::Linux
    }
}

impl OperatingSystem {
    /// The operating system of the build target whose OS name is `target_os`.
    pub fn current(target_os: &str) -> (os: OperatingSystem)
        ensures
            os == os_for_target(target_os@),
    {
        let name = target_os.to_owned();
        if name == "windows".to_owned() {
            OperatingSystem::Windows
        } else if name == "macos".to_owned() {
            OperatingSystem::MacOS
        } else {
            OperatingSystem::Linux
        }
    }
}

/// A rectangle on a screen.
#[derive(Debug, Clone, Copy, PartialEq, Eq, Structural)]
pub struct Rect {
    pub x: i32,
    pub y: i32,
    pub width: u32,
    pub height: u32,
}

/// Header of a video frame sent over UDP.
#[derive(Debug, Clone, Copy, PartialEq, Eq, Structural)]
pub struct VideoFrameHeader {
    pub frame_id: u64,
    pub timestamp: u64,
    pub width: u32,
    pub height: u32,
    pub format: FrameFormat,
    pub region: Option<Rect>,
    pub is_delta: bool,
    pub total_size: u32,
    pub chunk_index: u16,
    pub chunk_total: u16,
}

/// Encoding of a video frame.
#[derive(Debug, Clone, Copy, PartialEq, Eq, Structural)]
pub enum FrameFormat {
    /// JPEG compressed frame (fallback)
    Jpeg,
    /// H.264 encoded frame (preferred, needs hardware encoder)
    H264,
    /// WebP compressed frame
    WebP,
}

/// A mouse button.
#[derive(Debug, Clone, Copy, PartialEq, Eq, Structural)]
pub enum MouseButton {
    Left,
    Right,
    Middle,
}

/// Modifier keys held with a key press.
#[derive(Debug, Clone, Copy, PartialEq, Eq, Structural)]
pub struct KeyModifiers {
    pub ctrl: bool,
    pub alt: bool,
    pub shift: bool,
    pub meta: bool,
}

impl Default for KeyModifiers {
    fn default() -> (m: Self)
        ensures
            !m.ctrl && !m.alt && !m.shift && !m.meta,
    {
        KeyModifiers { ctrl: false, alt: false, shift: false, meta: false }
    }
}

/// Edge of the local screen that the remote display attaches to.
#[derive(Debug, Clone, Copy, PartialEq, Eq, Structural)]
pub enum ScreenEdge {
    Left,
    Right,
    Top,
    Bottom,
}

/// Which way clipboard content flows.
#[derive(Debug, Clone, Copy, PartialEq, Eq, Structural)]
pub enum ClipboardDirection {
    /// Local to remote only (one-way push)
    LocalToRemote,
    /// Remote to local only (one-way pull)
    RemoteToLocal,
    /// Both directions (bidirectional, default)
    Bidirectional,
}

/// Content of a clipboard.
#[derive(Debug, Clone)]
pub enum ClipboardContent {
    Text(String),
    RichText { html: String, plain: String },
    /// PNG-encoded image data
    Image { data: Vec<u8>, width: u32, height: u32 },
    /// URIs / paths of files on the source machine
    FileList { paths: Vec<String> },
}

/// Tracks what type of content is on the clipboard to avoid unnecessary transfers.
#[derive(Debug, Clone, Copy, PartialEq, Eq, Structural)]
pub struct ClipboardSnapshot {
    pub content_type: ClipboardContentType,
    pub sequence: u64,
    pub timestamp: u64,
    /// Size in bytes of the clipboard payload
    pub size: u32,
}

/// Kind of content on a clipboard.
#[derive(Debug, Clone, Copy, PartialEq, Eq, Structural)]
pub enum ClipboardContentType {
    Empty,
    Text,
    RichText,
    Image,
    FileList,
}

/// Which way audio flows.
#[derive(Debug, Clone, Copy, PartialEq, Eq, Structural)]
pub enum AudioDirection {
    /// Stream local machine's audio to remote (speaker forwarding)
    LocalToRemote,
    /// Receive remote machine's audio on local (capture forwarding)
    RemoteToLocal,
    /// Bidirectional audio
    Bidirectional,
}

/// Encoding of audio samples.
#[derive(Debug, Clone, Copy, PartialEq, Eq, Structural)]
pub enum AudioFormat {
    /// Raw PCM f32 samples
    PcmF32,
    /// Opus-encoded (preferred: low latency, small packets)
    Opus,
    /// AAC-encoded
    Aac,
}

/// An audio device of a peer.
#[derive(Debug, Clone)]
pub struct AudioDevice {
    pub id: String,
    pub name: String,
    pub is_default: bool,
    pub role: AudioDeviceRole,
}

/// What an audio device is used for.
#[derive(Debug, Clone, Copy, PartialEq, Eq, Structural)]
pub enum AudioDeviceRole {
    Output,
    Input,
    SystemCapture,
}

/// Header of an audio frame sent over UDP.
#[derive(Debug, Clone, Copy, PartialEq, Eq, Structural)]
pub struct AudioFrameHeader {
    pub frame_id: u64,
    pub timestamp: u64,
    pub sample_rate: u32,
    pub channels: u8,
    pub format: AudioFormat,
    pub total_size: u32,
    pub chunk_index: u16,
    pub chunk_total: u16,
}

/// Clipboard sharing settings.
#[derive(Debug, Clone, Copy, PartialEq, Eq, Structural)]
pub struct ClipboardSettings {
    pub enabled: bool,
    pub direction: ClipboardDirection,
    /// Maximum clipboard content size in bytes (default 10 MB)
    pub max_content_size: u32,
    /// Whether to sync images (can be bandwidth-heavy)
    pub sync_images: bool,
    /// Whether to sync files (sends file URIs, not content)
    pub sync_files: bool,
}

impl Default for ClipboardSettings {
    fn default() -> (s: Self)
        ensures
            s.enabled,
            s.direction == ClipboardDirection::Bidirectional,
            s.max_content_size == 10 * 1024 * 1024,
            s.sync_images,
            !s.sync_files,
    {
        ClipboardSettings {
            enabled: true,
            direction: ClipboardDirection::Bidirectional,
            max_content_size: 10 * 1024 * 1024,
            sync_images: true,
            sync_files: false,
        }
    }
}

/// Audio routing settings.
#[derive(Debug, Clone)]
pub struct AudioSettings {
    pub enabled: bool,
    pub direction: AudioDirection,
    pub output_device_id: Option<String>,
    pub input_device_id: Option<String>,
    /// Whether to use system audio capture (loopback on Windows, system capture on macOS)
    pub capture_system_audio: bool,
    /// Audio quality: Opus bitrate in kbps (32-510)
    pub bitrate_kbps: u32,
    /// Enable echo cancellation when bidirectional
    pub echo_cancellation: bool,
}

impl Default for AudioSettings {
    fn default() -> (s: Self)
        ensures
            !s.enabled,
            s.direction == AudioDirection::LocalToRemote,
            s.output_device_id is None,
            s.input_device_id is None,
            s.capture_system_audio,
            s.bitrate_kbps == 128,
            s.echo_cancellation,
    {
        AudioSettings {
            enabled: false,
            direction: AudioDirection::LocalToRemote,
            output_device_id: None,
            input_device_id: None,
            capture_system_audio: true,
            bitrate_kbps: 128,
            echo_cancellation: true,
        }
    }
}

/// Network settings.
#[derive(Debug, Clone)]
pub struct NetworkSettings {
    pub auto_discover: bool,
    pub port: u16,
    pub require_auth: bool,
    /// Pre-shared key for authentication (HMAC-SHA256)
    pub auth_key: Option<String>,
}

impl Default for NetworkSettings {
    fn default() -> (s: Self)
        ensures
            s.auto_discover,
            s.port == CONTROL_PORT,
            s.require_auth,
            s.auth_key is None,
    {
        NetworkSettings { auto_discover: true, port: CONTROL_PORT, require_auth: true, auth_key: None }
    }
}

} // verus!
