//! Verified core of a driver family for an application processor's companion
//! coprocessors: the secure enclave and the always-on sensor processor.

pub mod bytes;
pub mod errno;
pub mod mailbox;
pub mod proto;
pub mod rxring;
pub mod control;
pub mod transfer;
pub mod crc;
pub mod uuid;
pub mod xart_store;
pub mod xart_locate;
pub mod xarm;
pub mod xart_apfs;
pub mod catacomb;
pub mod keybag;
pub mod store;
pub mod image;
pub mod scrd;
pub mod der;
pub mod sks;
pub mod exchange;
pub mod bag;
pub mod sensor;
pub mod sbio;
pub mod bio;
pub mod session;
pub mod bringup;
pub mod vault;
pub mod capture;
pub mod sbio_link;
pub mod touchid;
pub mod ool;
pub mod sep;
pub mod credential;
pub mod shmem;
pub mod profile;
pub mod hwrng;
pub mod trusted;
pub mod refkey_seal;
pub mod refkey;
pub mod fv_volumes;
pub mod fv;
pub mod dt;
pub mod afk_ring;
pub mod epic;
pub mod afk;
pub mod aop;
pub mod aop_setup;
pub mod aop_driver;
pub mod aop_life;
pub mod aop_receive;
pub mod aop_sensors;
pub mod aop_als;
pub mod aop_las;
pub mod als_calibration;
pub mod xarm_link;
pub mod store_file;
pub mod persist;
