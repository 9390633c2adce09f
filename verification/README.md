# bwe

Send side bandwidth estimation and pacing control for real time media, verified with Verus.

- `src/handle.rs`: `Bwe`, bandwidth estimation as an application uses it.
- `src/estimator.rs`: `SendSideBandwidthEstimator`, which feeds reports, sent packets and timeouts
  to its parts and combines the delay based and the loss based estimate into one.
- `src/parts.rs`: the parts that the estimator is put together from, as traits. The view of a part
  is its state, and spec functions over that state say what each method does.
- `src/alr.rs`, `src/capacity.rs`, `src/replay.rs`: parts. The replaying ones answer with
  measurements that were made elsewhere.
- `src/packet.rs`, `src/receive_order.rs`: acknowledged packets, and the order in which the remote
  received them.
- `src/rules.rs`, `src/timeout.rs`, `src/usage.rs`: rules that need no state.
- `src/pacer.rs`: `PacerControl`, the pacing and padding rates.
- `src/laws.rs`: what holds of the estimator whatever its parts do.
- `src/double.rs`: double precision numbers that are not negative, by their bits: comparison,
  rounding to the nearest number, products.
- `src/units.rs`, `src/twcc.rs`: quantities and records. A rate is a double, held by its bits.
- `app/`: the estimator on the system clock, with tracing.

Nothing in `src/` is trusted: every function there is proved.
