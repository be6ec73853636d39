# doubloon

Sensor logic of a small attitude-estimation firmware (STM32F3 with an
LSM303AGR magnetometer/accelerometer and an I3G4250D gyroscope), verified
with Verus.

- `src/gyro.rs`: gyroscope offset calibration (running sums, offsets as the
  sum divided by the sample size rounded toward zero), correction of raw
  readings, the calibration hand-off signal, SPI error texts.
- `src/compass.rs`: magnetometer calibration samples per axis, their least
  and greatest values, the plan the magnetometer task follows after the
  gyroscope's signal, driver error texts.
- `src/sample_buffer.rs`: the `heapless::Vec` that holds calibration samples,
  seen through the samples it holds.
- `app/`: the firmware itself (embassy tasks, driver I/O, floating-point
  scaling and sensor fusion), calling the library for every decision.
