# hares_water_heater

Domestic water heaters for building energy simulation: storage heaters with a gas burner,
resistance elements, a heat pump or a boiler behind them, and tankless heaters.

- `src/` is the library, verified with Verus: binary64 arithmetic on bits (`double`,
  `magnitude`, `rounding`), the stratified tank (`tank`, `mixing`), the heaters (`gas`,
  `resistance`, `heat_pump_wh`, `indirect_tank`, `tankless`), their configurations
  (`wh_config`, `water_heater_config`, `config`) and the rules that they share (`shared`,
  `storage`, `zip`, `time`).
- What holds of the library as a whole is stated and proved in `double_laws`, `precision`,
  `ranges` and `overflow` for the arithmetic; in `conservation`, `mixing_optimum`, `draws`,
  `heating`, `step_balance`, `ordinary_steps`, `insulation` and `tank_laws` for the tank; and in
  `heater_laws`, `power_laws`, `condenser_laws` and `config_laws` for the heaters.
- `tests/` runs the library on concrete values.
- `app/` is ordinary Rust around it: serialised configurations and checkpoints, messages,
  and the steps of the heaters between a dwelling's ports and a simulation's physics.
