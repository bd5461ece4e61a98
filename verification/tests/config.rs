use audio_visualizer::device_modules::config::{
    BlinkstickCfg, DeviceType, Devicecfg, Esp8266Cfg, IpAddress, RaspberryPiCfg, StatusType,
};

#[test]
fn raspberry_pi_defaults() {
    let cfg = RaspberryPiCfg::default();
    assert_eq!(cfg.led_pin, 18);
    assert_eq!(cfg.led_freq_hz, 800_000);
    assert_eq!(cfg.led_dma, 5);
    assert_eq!(cfg.brightness, 255);
    assert!(cfg.led_invert);
    assert!(cfg.software_gamma_correction);
}

#[test]
fn esp8266_defaults() {
    let cfg = Esp8266Cfg::default();
    assert_eq!(cfg.udp_ip, IpAddress::V4(192, 168, 2, 165));
    assert_eq!(cfg.udp_port, 7777);
    assert!(!cfg.software_gamma_correction);
}

#[test]
fn blinkstick_defaults() {
    assert!(BlinkstickCfg::default().software_gamma_correction);
}

#[test]
fn device_defaults() {
    let cfg = Devicecfg::default();
    assert!(cfg.use_gui);
    assert!(cfg.display_fps);
    assert_eq!(cfg.pixel_num, 65);
    assert_eq!(cfg.gamma_table_path, "directory");
    assert_eq!(cfg.mic_rate, 44_100);
    assert_eq!(cfg.fps, 60);
    assert_eq!(cfg.min_led_fps, 200);
    assert_eq!(cfg.max_led_fps, 12_000);
    assert_eq!(cfg.fft_bins, 24);
    assert_eq!(cfg.device_type, DeviceType::ESP8266);
    assert_eq!(cfg.device_specific_cfg.udp_port, 7777);
    assert_ne!(StatusType::OK, StatusType::ERROR);
}
