//! Plain records describing displays, capture devices and capture modes.
use vstd::prelude::*;

verus! {

/// A monitor the program output can be shown on.
#[derive(Debug)]
pub struct DisplayInfo {
    pub id: u32,
    pub name: String,
    pub primary: bool,
    pub width: i32,
    pub height: i32,
}

/// A capture device as reported to clients.
#[derive(Debug)]
pub struct VideoDevice {
    pub id: String,
    pub display_name: String,
    pub backend: String,
}

/// One capture mode of a device.
#[derive(Debug)]
pub struct VideoFormat {
    pub width: i32,
    pub height: i32,
    pub fps_num: i32,
    pub fps_den: i32,
    pub pixel_format: String,
}

impl Clone for DisplayInfo {
    fn clone(&self) -> (r: Self)
        ensures
            r == *self,
    {
        DisplayInfo {
            id: self.id,
            name: self.name.clone(),
            primary: self.primary,
            width: self.width,
            height: self.height,
        }
    }
}

impl Clone for VideoDevice {
    fn clone(&self) -> (r: Self)
        ensures
            r == *self,
    {
        VideoDevice {
            id: self.id.clone(),
            display_name: self.display_name.clone(),
            backend: self.backend.clone(),
        }
    }
}

impl Clone for VideoFormat {
    fn clone(&self) -> (r: Self)
        ensures
            r == *self,
    {
        VideoFormat {
            width: self.width,
            height: self.height,
            fps_num: self.fps_num,
            fps_den: self.fps_den,
            pixel_format: self.pixel_format.clone(),
        }
    }
}

} // verus!
