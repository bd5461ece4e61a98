//! Device configuration values and their defaults.
use vstd::prelude::*;

verus! {

/// Settings for a strip driven by a Raspberry Pi.
#[derive(Debug)]
pub struct RaspberryPiCfg {
    /// GPIO pin connected to the LED strip pixels (must support PWM).
    pub led_pin: u8,
    /// LED signal frequency in Hz (usually 800kHz).
    pub led_freq_hz: u32,
    /// DMA channel used for generating the PWM signal.
    pub led_dma: u8,
    /// Brightness of the LED strip between 0 and 255.
    pub brightness: u8,
    /// Whether an inverting logic level converter is used.
    pub led_invert: bool,
    /// Whether gamma correction is done in software (the Pi does no dithering).
    pub software_gamma_correction: bool,
}

impl Default for RaspberryPiCfg {
    fn default() -> (cfg: RaspberryPiCfg)
        ensures
            cfg.led_pin == 18,
            cfg.led_freq_hz == 800_000,
            cfg.led_dma == 5,
            cfg.brightness == 255,
            cfg.led_invert,
            cfg.software_gamma_correction,
    {
        RaspberryPiCfg {
            led_pin: 18,
            led_freq_hz: 800_000,
            led_dma: 5,
            brightness: 255,
            led_invert: true,
            software_gamma_correction: true,
        }
    }
}

/// An IP address, version 4 as four octets or version 6 as eight segments.
#[derive(Clone, Copy, Debug, PartialEq, Eq, Structural)]
pub enum IpAddress {
    V4(u8, u8, u8, u8),
    V6(u16, u16, u16, u16, u16, u16, u16, u16),
}

/// Settings for a strip driven over UDP by an ESP8266.
#[derive(Debug)]
pub struct Esp8266Cfg {
    /// IP address of the ESP8266.
    pub udp_ip: IpAddress,
    /// Port number used for socket communication with the ESP8266.
    pub udp_port: u16,
    /// Whether gamma correction is done in software.
    pub software_gamma_correction: bool,
}

impl Default for Esp8266Cfg {
    fn default() -> (cfg: Esp8266Cfg)
        ensures
            cfg.udp_ip == IpAddress::V4(192, 168, 2, 165),
            cfg.udp_port == 7777,
            !cfg.software_gamma_correction,
    {
        Esp8266Cfg { udp_ip: IpAddress::V4(192, 168, 2, 165), udp_port: 7777, software_gamma_correction: false }
    }
}

/// Settings for a Blinkstick.
#[derive(Debug)]
pub struct BlinkstickCfg {
    /// Whether gamma correction is done in software (the Blinkstick does no dithering).
    pub software_gamma_correction: bool,
}

impl Default for BlinkstickCfg {
    fn default() -> (cfg: BlinkstickCfg)
        ensures
            cfg.software_gamma_correction,
    {
        BlinkstickCfg { software_gamma_correction: true }
    }
}

/// The kinds of device that can drive the strip.
#[allow(non_camel_case_types)]
#[derive(Clone, Copy, Debug, PartialEq, Eq, Structural)]
pub enum DeviceType {
    ESP8266,
    RASPBERRY_PI,
    BLINKSTICK,
}

/// Whether an operation went well.
#[derive(Clone, Copy, Debug, PartialEq, Eq, Structural)]
pub enum StatusType {
    ERROR,
    OK,
}

/// Settings of the visualizer and the device it drives.
#[derive(Debug)]
pub struct Devicecfg {
    /// Whether to display a GUI plot of the visualization.
    pub use_gui: bool,
    /// Whether to display the FPS when running.
    pub display_fps: bool,
    /// Number of pixels in the LED strip (must match the device firmware).
    pub pixel_num: u8,
    /// Location of the gamma correction table.
    pub gamma_table_path: String,
    /// Sampling frequency of the microphone in Hz.
    pub mic_rate: u32,
    /// Desired refresh rate of the visualization (frames per second).
    pub fps: u8,
    /// Frequencies below this value are removed during audio processing.
    pub min_led_fps: u32,
    /// Frequencies above this value are removed during audio processing.
    pub max_led_fps: u32,
    /// Number of frequency bins.
    pub fft_bins: usize,
    pub device_type: DeviceType,
    pub device_specific_cfg: Esp8266Cfg,
}

impl Default for Devicecfg {
    fn default() -> (cfg: Devicecfg)
        ensures
            cfg.use_gui,
            cfg.display_fps,
            cfg.pixel_num == 65,
            cfg.gamma_table_path@ == "directory"@,
            cfg.mic_rate == 44_100,
            cfg.fps == 60,
            cfg.min_led_fps == 200,
            cfg.max_led_fps == 12_000,
            cfg.fft_bins == 24,
            cfg.device_type == DeviceType::ESP8266,
            cfg.device_specific_cfg.udp_ip == IpAddress::V4(192, 168, 2, 165),
            cfg.device_specific_cfg.udp_port == 7777,
            !cfg.device_specific_cfg.software_gamma_correction,
    {
        Devicecfg {
            use_gui: true,
            display_fps: true,
            pixel_num: 65,
            gamma_table_path: "directory".to_string(),
            mic_rate: 44_100,
            fps: 60,
            min_led_fps: 200,
            max_led_fps: 12_000,
            fft_bins: 24,
            device_type: DeviceType::ESP8266,
            device_specific_cfg: Esp8266Cfg::default(),
        }
    }
}

} // verus!
