# bevellm

Agents of a game that talk through a local language model, verified with Verus.

`src/` is the library. It decides everything that can be decided without a game engine, a
clock, a thread or a model: what a model is asked, what its reply means, which facts are
drawn from a conversation and how long they last, which request runs and which one waits,
how a generated conversation is played back, and which tools an action type stands for.
Every public function carries a contract, and the laws that relate several functions are public
proof functions whose names begin with `law_`.

`app/` is the game side: Bevy events, resources and systems, worker threads, the model
runtime, and the expansion of action types. It carries out what the library decides.

| modules | what they hold |
| --- | --- |
| `text`, `naming`, `rounding`, `importance`, `calendar`, `table` | texts, names, numbers, dates and tables |
| `json`, `objects`, `schema` | JSON values, objects in a text, schema guides |
| `types`, `events`, `model`, `config`, `tools` | what is exchanged, models, runtime profiles |
| `facts`, `extraction`, `history` | facts, how they are read and merged, conversation threads |
| `prompt`, `reply`, `turn` | what a model is asked for a turn, and what comes of its reply |
| `generation`, `pace`, `playback` | generated conversations and their playback |
| `bridge`, `sessions` | which requests run, and what is kept of them |
| `actions` | the tools of an action type |
| `fact_laws`, `history_laws`, `bridge_laws` | laws that span functions |
