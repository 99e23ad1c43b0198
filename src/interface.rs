use vstd::prelude::*;

verus! {

/// One pixel as the driver stores it: blue, green, red, and a reserved byte.
pub type RawColor = [u8; 4];

/// The kinds of strip the driver knows.
#[derive(Clone, Copy, Debug, PartialEq, Eq)]
pub enum StripType {
    Ws2812,
}

/// A stand-in for the hardware controller of a single channel: it keeps the
/// pixel buffer and the brightness that a real driver would send to the strip.
#[derive(Clone, Debug)]
pub struct Controller {
    pub leds: Vec<RawColor>,
    pub brightness: u8,
}

impl Controller {
    /// Commits the buffer to the strip. The stand-in has no hardware to fail.
    pub fn render(&mut self) -> (r: Result<(), DriverError>)
        ensures
            *final(self) == *old(self),
            r is Ok,
    {
        Ok(())
    }

    /// Sets the brightness of the channel.
    pub fn set_brightness(&mut self, _channel: usize, value: u8)
        ensures
            final(self).brightness == value,
            final(self).leds@ == old(self).leds@,
    {
        self.brightness = value;
    }

    /// The pixel buffer of the channel, to be written in place.
    pub fn leds_mut(&mut self, _channel: usize) -> (r: &mut [RawColor])
        ensures
            r@ == old(self).leds@,
            final(self).leds@ == final(r)@,
            final(self).brightness == old(self).brightness,
    {
        self.leds.as_mut_slice()
    }
}

/// The failures that a strip driver can report.
#[derive(Clone, Copy, Debug, PartialEq, Eq)]
pub enum DriverError {
    Generic,
    OutOfMemory,
    HwNotSupported,
    MemLock,
    Mmap,
    MapRegisters,
    GpioInit,
    PwmSetup,
    MailboxDevice,
    Dma,
    IllegalGpio,
    PcmSetup,
    SpiSetup,
    SpiTransfer,
}

/// The settings of one channel: its pixel count and its brightness.
pub type Channel = (usize, u8);

/// Collects the settings of a controller before it is built.
#[derive(Debug, Default)]
pub struct ControllerBuilder {
    pub length: usize,
    pub brightness: u8,
}

impl ControllerBuilder {
    /// A builder for a controller with no pixels and zero brightness.
    pub fn new() -> (r: Self)
        ensures
            r.length == 0,
            r.brightness == 0,
    {
        ControllerBuilder { length: 0, brightness: 0 }
    }

    /// Sets the signal frequency; the stand-in has no signal to drive.
    pub fn freq(&mut self, _frequency: u32) -> (r: &mut Self)
        ensures
            *r == *old(self),
            *final(self) == *final(r),
    {
        self
    }

    /// Takes the pixel count and brightness of the given channel.
    pub fn channel(&mut self, _index: usize, channel: Channel) -> (r: &mut Self)
        ensures
            r.length == channel.0,
            r.brightness == channel.1,
            *final(self) == *final(r),
    {
        self.length = channel.0;
        self.brightness = channel.1;
        self
    }

    /// Sets the DMA channel; the stand-in does no DMA.
    pub fn dma(&mut self, _dma: i32) -> (r: &mut Self)
        ensures
            *r == *old(self),
            *final(self) == *final(r),
    {
        self
    }

    /// Builds a controller whose buffer holds `length` dark pixels.
    pub fn build(&mut self) -> (r: Result<Controller, DriverError>)
        ensures
            *final(self) == *old(self),
            r is Ok,
            r->Ok_0.brightness == old(self).brightness,
            r->Ok_0.leds@ == Seq::new(old(self).length as nat, |i: int| [0u8, 0u8, 0u8, 0u8]),
    {
        let mut leds: Vec<RawColor> = Vec::new();
        let mut i: usize = 0;
        while i < self.length
            invariant
                i <= self.length,
                leds@ == Seq::new(i as nat, |k: int| [0u8, 0u8, 0u8, 0u8]),
            decreases self.length - i,
        {
            leds.push([0u8, 0u8, 0u8, 0u8]);
            i = i + 1;
            assert(leds@ =~= Seq::new(i as nat, |k: int| [0u8, 0u8, 0u8, 0u8]));
        }
        Ok(Controller { leds, brightness: self.brightness })
    }
}

/// Collects the settings of one channel.
#[derive(Debug, Default)]
pub struct ChannelBuilder {
    pub length: i32,
    pub brightness: u8,
}

impl ChannelBuilder {
    /// A builder for a channel with no pixels and zero brightness.
    pub fn new() -> (r: Self)
        ensures
            r.length == 0,
            r.brightness == 0,
    {
        ChannelBuilder { length: 0, brightness: 0 }
    }

    /// Sets the GPIO pin; the stand-in drives no pin.
    pub fn pin(&mut self, _pin: i32) -> (r: &mut Self)
        ensures
            *r == *old(self),
            *final(self) == *final(r),
    {
        self
    }

    /// Sets the number of pixels on the channel.
    pub fn count(&mut self, value: i32) -> (r: &mut Self)
        ensures
            r.length == value,
            r.brightness == old(self).brightness,
            *final(self) == *final(r),
    {
        self.length = value;
        self
    }

    /// Sets the kind of strip; the stand-in treats all kinds alike.
    pub fn strip_type(&mut self, _strip: StripType) -> (r: &mut Self)
        ensures
            *r == *old(self),
            *final(self) == *final(r),
    {
        self
    }

    /// Sets whether the signal is inverted; the stand-in sends no signal.
    pub fn invert(&mut self, _invert: bool) -> (r: &mut Self)
        ensures
            *r == *old(self),
            *final(self) == *final(r),
    {
        self
    }

    /// Sets the brightness of the channel.
    pub fn brightness(&mut self, value: u8) -> (r: &mut Self)
        ensures
            r.brightness == value,
            r.length == old(self).length,
            *final(self) == *final(r),
    {
        self.brightness = value;
        self
    }

    /// The channel's settings; a negative count wraps as a cast to `usize` does.
    pub fn build(&mut self) -> (r: Channel)
        ensures
            r == (old(self).length as usize, old(self).brightness),
            *final(self) == *old(self),
    {
        (self.length as usize, self.brightness)
    }
}

} // verus!
