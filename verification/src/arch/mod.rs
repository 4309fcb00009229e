pub mod port;
pub mod boot_info;
pub mod graphic;
pub mod pic;
pub mod timer;
pub mod mouse;
pub mod keyboard;
pub mod dsctbl;
