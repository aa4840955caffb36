pub mod adxl362;
pub mod color;
pub mod layout3d;
pub mod led_control;
pub mod ota;
pub mod sleep_control;
pub mod tasks;
pub mod vec3;
