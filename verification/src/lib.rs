//! Serial firmware loading for the SiWx917 through its ROM Kermit bootloader.
//!
//! [`plugin`] runs a whole job. It resolves the job to one file ([`job`]), makes sure that the file
//! is an image and for which core ([`image`]), reaches the bootloader's menu and chooses the burn
//! entry ([`menu`]), sends the file ([`transfer`]) and reads the ROM's verdict ([`report`]).
//!
//! Below that, [`listen`] waits for text and [`recognise`] tells what the text says; [`codec`]
//! frames packets, [`receive`] reads them, and [`exchange`] sends one and waits for its
//! acknowledgement. Nothing here touches a device: [`host`] is the conversation with the one who
//! does.
//!
//! What holds of a transfer as a whole stands in [`delivery`], what holds of a whole job in
//! [`session`], and what a job tells its user in [`progress`].

pub mod codec;
pub mod delivery;
pub mod error;
pub mod event;
pub mod exchange;
pub mod host;
pub mod image;
pub mod job;
pub mod listen;
pub mod menu;
pub mod plugin;
pub mod progress;
pub mod receive;
pub mod recognise;
pub mod report;
pub mod session;
pub mod text;
pub mod transfer;
